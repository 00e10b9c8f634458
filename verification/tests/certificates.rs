//! Certificates and registrations: what a captured chain says, what a registry says, and which
//! alerts follow.

use vigil::cert_scheduler::{
    check_timeout, cutoff, domain_host, evaluate_domain_alerts, evaluate_ssl_alerts,
    monitor_ctx_url, no_target, refresh_domain, refresh_ssl, ssl_target, target_of, UrlParts,
};
use vigil::certcheck::domain::{
    after_rdap, after_root_whois, after_whois, find_referral, parse_rdap, parse_whois,
    parse_whois_date, rdap_url, registrable_domain, whois_answer, whois_request, DomainResult,
    RdapReply, Step,
};
use vigil::certcheck::ssl::{
    assess, check, hostname_matches, obstructed, ssl_probe, verify_chain, LeafFacts, Obstacle, SslResult,
};
use vigil::json::Json;
use vigil::models::{test_defaults_monitor, Cause, Connectivity, Monitor};

/// A self-signed certificate for `www.example.com`, of 2021-07-27 to 2023-06-27.
const SELF_SIGNED: [u8; 268] = [
    0x30, 0x82, 0x01, 0x08, 0x30, 0x81, 0xbb, 0x02, 0x14, 0x77, 0xe5, 0xf4, 0xc0, 0x34, 0x88, 0xa1, 0x22, 0x6c, 0xf5, 0xcd,
    0x45, 0xf3, 0xcd, 0xf0, 0x49, 0x91, 0xf8, 0x15, 0x43, 0x30, 0x05, 0x06, 0x03, 0x2b, 0x65, 0x70, 0x30, 0x27, 0x31, 0x0b,
    0x30, 0x09, 0x06, 0x03, 0x55, 0x04, 0x06, 0x13, 0x02, 0x44, 0x45, 0x31, 0x18, 0x30, 0x16, 0x06, 0x03, 0x55, 0x04, 0x03,
    0x0c, 0x0f, 0x77, 0x77, 0x77, 0x2e, 0x65, 0x78, 0x61, 0x6d, 0x70, 0x6c, 0x65, 0x2e, 0x63, 0x6f, 0x6d, 0x30, 0x1e, 0x17,
    0x0d, 0x32, 0x31, 0x30, 0x37, 0x32, 0x37, 0x31, 0x32, 0x33, 0x37, 0x31, 0x34, 0x5a, 0x17, 0x0d, 0x32, 0x33, 0x30, 0x36,
    0x32, 0x37, 0x31, 0x32, 0x33, 0x37, 0x31, 0x34, 0x5a, 0x30, 0x27, 0x31, 0x0b, 0x30, 0x09, 0x06, 0x03, 0x55, 0x04, 0x06,
    0x13, 0x02, 0x44, 0x45, 0x31, 0x18, 0x30, 0x16, 0x06, 0x03, 0x55, 0x04, 0x03, 0x0c, 0x0f, 0x77, 0x77, 0x77, 0x2e, 0x65,
    0x78, 0x61, 0x6d, 0x70, 0x6c, 0x65, 0x2e, 0x63, 0x6f, 0x6d, 0x30, 0x2a, 0x30, 0x05, 0x06, 0x03, 0x2b, 0x65, 0x70, 0x03,
    0x21, 0x00, 0x3e, 0xa4, 0x05, 0xd2, 0xef, 0x19, 0xf5, 0xe0, 0xab, 0xf3, 0x3e, 0x4d, 0xf5, 0x4e, 0xe5, 0x1d, 0x05, 0x44,
    0x79, 0x3d, 0x98, 0xe2, 0x67, 0x25, 0x37, 0xf4, 0xff, 0xca, 0xf8, 0x60, 0x98, 0x4c, 0x30, 0x05, 0x06, 0x03, 0x2b, 0x65,
    0x70, 0x03, 0x41, 0x00, 0x20, 0xdb, 0x7a, 0xe6, 0xfa, 0xc2, 0x88, 0xe9, 0x59, 0xf4, 0x6a, 0xca, 0xb2, 0xd7, 0x2c, 0x48,
    0x0d, 0x55, 0xbc, 0x0f, 0x27, 0x57, 0x32, 0x52, 0x68, 0x3f, 0xe8, 0x01, 0xaa, 0x9e, 0x83, 0xd2, 0x23, 0xc3, 0xb4, 0x8c,
    0x17, 0x93, 0x70, 0x6b, 0xde, 0x0d, 0xc4, 0xaa, 0x36, 0x71, 0xc8, 0x83, 0x83, 0xb1, 0xe4, 0x1a, 0x6e, 0x52, 0x8b, 0xd6,
    0xbc, 0x02, 0xa6, 0x26, 0xea, 0x8d, 0xd5, 0x02,
];

/// A certificate for `testssl.kamusm.gov.tr`, of 2017-03-07 to 2020-03-06.
const LEAF: [u8; 1649] = [
    0x30, 0x82, 0x06, 0x6d, 0x30, 0x82, 0x05, 0x55, 0xa0, 0x03, 0x02, 0x01, 0x02, 0x02, 0x0a, 0x00, 0xd2, 0xe7, 0x69, 0x98,
    0x8d, 0x25, 0x6b, 0xd6, 0x7e, 0x30, 0x0d, 0x06, 0x09, 0x2a, 0x86, 0x48, 0x86, 0xf7, 0x0d, 0x01, 0x01, 0x0b, 0x05, 0x00,
    0x30, 0x81, 0xdf, 0x31, 0x0b, 0x30, 0x09, 0x06, 0x03, 0x55, 0x04, 0x06, 0x13, 0x02, 0x54, 0x52, 0x31, 0x18, 0x30, 0x16,
    0x06, 0x03, 0x55, 0x04, 0x07, 0x0c, 0x0f, 0x47, 0x65, 0x62, 0x7a, 0x65, 0x20, 0x2d, 0x20, 0x4b, 0x6f, 0x63, 0x61, 0x65,
    0x6c, 0x69, 0x31, 0x42, 0x30, 0x40, 0x06, 0x03, 0x55, 0x04, 0x0a, 0x0c, 0x39, 0x54, 0x75, 0x72, 0x6b, 0x69, 0x79, 0x65,
    0x20, 0x42, 0x69, 0x6c, 0x69, 0x6d, 0x73, 0x65, 0x6c, 0x20, 0x76, 0x65, 0x20, 0x54, 0x65, 0x6b, 0x6e, 0x6f, 0x6c, 0x6f,
    0x6a, 0x69, 0x6b, 0x20, 0x41, 0x72, 0x61, 0x73, 0x74, 0x69, 0x72, 0x6d, 0x61, 0x20, 0x4b, 0x75, 0x72, 0x75, 0x6d, 0x75,
    0x20, 0x2d, 0x20, 0x54, 0x55, 0x42, 0x49, 0x54, 0x41, 0x4b, 0x31, 0x2d, 0x30, 0x2b, 0x06, 0x03, 0x55, 0x04, 0x0b, 0x0c,
    0x24, 0x4b, 0x61, 0x6d, 0x75, 0x20, 0x53, 0x65, 0x72, 0x74, 0x69, 0x66, 0x69, 0x6b, 0x61, 0x73, 0x79, 0x6f, 0x6e, 0x20,
    0x4d, 0x65, 0x72, 0x6b, 0x65, 0x7a, 0x69, 0x20, 0x2d, 0x20, 0x4b, 0x61, 0x6d, 0x75, 0x20, 0x53, 0x4d, 0x31, 0x43, 0x30,
    0x41, 0x06, 0x03, 0x55, 0x04, 0x03, 0x0c, 0x3a, 0x54, 0x55, 0x42, 0x49, 0x54, 0x41, 0x4b, 0x20, 0x4b, 0x61, 0x6d, 0x75,
    0x20, 0x53, 0x4d, 0x20, 0x53, 0x53, 0x4c, 0x20, 0x53, 0x65, 0x72, 0x74, 0x69, 0x66, 0x69, 0x6b, 0x61, 0x20, 0x48, 0x69,
    0x7a, 0x6d, 0x65, 0x74, 0x20, 0x53, 0x61, 0x67, 0x6c, 0x61, 0x79, 0x69, 0x63, 0x69, 0x73, 0x69, 0x20, 0x2d, 0x20, 0x53,
    0x75, 0x72, 0x75, 0x6d, 0x20, 0x31, 0x30, 0x1e, 0x17, 0x0d, 0x31, 0x37, 0x30, 0x33, 0x30, 0x37, 0x30, 0x35, 0x34, 0x34,
    0x30, 0x37, 0x5a, 0x17, 0x0d, 0x32, 0x30, 0x30, 0x33, 0x30, 0x36, 0x30, 0x35, 0x34, 0x34, 0x30, 0x37, 0x5a, 0x30, 0x74,
    0x31, 0x0b, 0x30, 0x09, 0x06, 0x03, 0x55, 0x04, 0x06, 0x13, 0x02, 0x54, 0x52, 0x31, 0x10, 0x30, 0x0e, 0x06, 0x03, 0x55,
    0x04, 0x08, 0x0c, 0x07, 0x54, 0x55, 0x52, 0x4b, 0x49, 0x59, 0x45, 0x31, 0x10, 0x30, 0x0e, 0x06, 0x03, 0x55, 0x04, 0x07,
    0x0c, 0x07, 0x4b, 0x4f, 0x43, 0x41, 0x45, 0x4c, 0x49, 0x31, 0x10, 0x30, 0x0e, 0x06, 0x03, 0x55, 0x04, 0x0a, 0x0c, 0x07,
    0x54, 0x55, 0x42, 0x49, 0x54, 0x41, 0x4b, 0x31, 0x0f, 0x30, 0x0d, 0x06, 0x03, 0x55, 0x04, 0x0b, 0x0c, 0x06, 0x4b, 0x61,
    0x6d, 0x75, 0x53, 0x4d, 0x31, 0x1e, 0x30, 0x1c, 0x06, 0x03, 0x55, 0x04, 0x03, 0x0c, 0x15, 0x74, 0x65, 0x73, 0x74, 0x73,
    0x73, 0x6c, 0x2e, 0x6b, 0x61, 0x6d, 0x75, 0x73, 0x6d, 0x2e, 0x67, 0x6f, 0x76, 0x2e, 0x74, 0x72, 0x30, 0x82, 0x01, 0x22,
    0x30, 0x0d, 0x06, 0x09, 0x2a, 0x86, 0x48, 0x86, 0xf7, 0x0d, 0x01, 0x01, 0x01, 0x05, 0x00, 0x03, 0x82, 0x01, 0x0f, 0x00,
    0x30, 0x82, 0x01, 0x0a, 0x02, 0x82, 0x01, 0x01, 0x00, 0xc5, 0xda, 0xda, 0x49, 0x61, 0x0e, 0xee, 0x36, 0x31, 0xf9, 0x33,
    0xd3, 0x18, 0x44, 0x15, 0x60, 0x35, 0x5e, 0x69, 0xb0, 0x47, 0x3d, 0xcf, 0x0c, 0xae, 0xb9, 0x55, 0x02, 0xcd, 0xf0, 0x76,
    0xb9, 0x40, 0xe3, 0xd3, 0xf5, 0x72, 0xc5, 0xd8, 0xc2, 0xc8, 0xd7, 0x8e, 0xf0, 0x0d, 0xf4, 0xf0, 0x3d, 0x4b, 0x09, 0x5d,
    0xad, 0xd5, 0x29, 0x30, 0xde, 0x6e, 0x6f, 0x28, 0xc7, 0x01, 0xce, 0x7c, 0x93, 0x4a, 0x14, 0xb0, 0x27, 0xf3, 0xbd, 0x4b,
    0x58, 0x31, 0x4d, 0x91, 0xca, 0xd4, 0x58, 0x7d, 0xbe, 0x1f, 0xf2, 0xcc, 0x3f, 0xe9, 0x20, 0x37, 0xac, 0xe4, 0x48, 0x5a,
    0x2a, 0x5e, 0x94, 0x8c, 0xe3, 0x58, 0x40, 0x0a, 0xc0, 0x3d, 0xee, 0xbd, 0x17, 0xfc, 0x14, 0x1b, 0x22, 0x65, 0xa7, 0xae,
    0x49, 0x96, 0x7d, 0x59, 0x83, 0xc6, 0x2c, 0x3b, 0xaa, 0x41, 0x9e, 0x4c, 0x7b, 0xc2, 0x58, 0x64, 0x29, 0x9c, 0xb9, 0x44,
    0x9e, 0x29, 0x0c, 0x79, 0x14, 0x69, 0xdf, 0xc3, 0x53, 0x8c, 0x62, 0x19, 0x89, 0xba, 0xbd, 0x48, 0xd5, 0x8c, 0x24, 0x55,
    0xef, 0xd7, 0xe3, 0xf9, 0xc9, 0xa2, 0x1e, 0x25, 0x27, 0x9f, 0x04, 0xa9, 0x04, 0xef, 0x50, 0x20, 0xc4, 0x90, 0x34, 0xe4,
    0x81, 0x4d, 0x39, 0x6c, 0xa7, 0xb8, 0x8f, 0xff, 0x9f, 0x27, 0x3e, 0x0a, 0x1b, 0xfe, 0x1c, 0x40, 0xb7, 0x58, 0x8c, 0x9b,
    0xf5, 0x9d, 0x24, 0x7d, 0x61, 0x37, 0xb3, 0x4e, 0x5a, 0x34, 0x21, 0x36, 0xd8, 0xe7, 0xa3, 0x4c, 0x93, 0x2a, 0xd4, 0x48,
    0xd3, 0xf8, 0x6d, 0x27, 0x30, 0xa8, 0x5c, 0x2d, 0x2a, 0x4d, 0x9b, 0xa4, 0xa6, 0x55, 0x1a, 0xf7, 0xd7, 0xa2, 0xc5, 0x90,
    0x5d, 0x93, 0x1b, 0xef, 0xfe, 0xc7, 0x91, 0x7d, 0xba, 0x30, 0xd8, 0xeb, 0xbf, 0x71, 0xe7, 0x2a, 0x01, 0x0d, 0xaf, 0x4d,
    0x18, 0xc4, 0x1a, 0x6c, 0xd5, 0x02, 0x03, 0x01, 0x00, 0x01, 0xa3, 0x82, 0x02, 0x93, 0x30, 0x82, 0x02, 0x8f, 0x30, 0x1f,
    0x06, 0x03, 0x55, 0x1d, 0x23, 0x04, 0x18, 0x30, 0x16, 0x80, 0x14, 0xf6, 0x35, 0x35, 0x17, 0xae, 0x2e, 0xfb, 0xb7, 0x7d,
    0xf7, 0x76, 0x17, 0x8a, 0x65, 0x64, 0xeb, 0x67, 0x7a, 0x40, 0xab, 0x30, 0x1d, 0x06, 0x03, 0x55, 0x1d, 0x0e, 0x04, 0x16,
    0x04, 0x14, 0x16, 0xc0, 0x4e, 0x30, 0x83, 0xd5, 0xfc, 0x25, 0xb9, 0x25, 0xbd, 0xfd, 0xe3, 0x2a, 0xf2, 0x20, 0x03, 0x30,
    0x09, 0x80, 0x30, 0x0e, 0x06, 0x03, 0x55, 0x1d, 0x0f, 0x01, 0x01, 0xff, 0x04, 0x04, 0x03, 0x02, 0x05, 0xa0, 0x30, 0x82,
    0x01, 0x3d, 0x06, 0x03, 0x55, 0x1d, 0x20, 0x04, 0x82, 0x01, 0x34, 0x30, 0x82, 0x01, 0x30, 0x30, 0x82, 0x01, 0x22, 0x06,
    0x0b, 0x60, 0x86, 0x18, 0x01, 0x02, 0x01, 0x01, 0x05, 0x07, 0x01, 0x03, 0x30, 0x82, 0x01, 0x11, 0x30, 0x2a, 0x06, 0x08,
    0x2b, 0x06, 0x01, 0x05, 0x05, 0x07, 0x02, 0x01, 0x16, 0x1e, 0x68, 0x74, 0x74, 0x70, 0x3a, 0x2f, 0x2f, 0x64, 0x65, 0x70,
    0x6f, 0x2e, 0x6b, 0x61, 0x6d, 0x75, 0x73, 0x6d, 0x2e, 0x67, 0x6f, 0x76, 0x2e, 0x74, 0x72, 0x2f, 0x69, 0x6c, 0x6b, 0x65,
    0x30, 0x81, 0xe2, 0x06, 0x08, 0x2b, 0x06, 0x01, 0x05, 0x05, 0x07, 0x02, 0x02, 0x30, 0x81, 0xd5, 0x1e, 0x81, 0xd2, 0x00,
    0x42, 0x00, 0x75, 0x00, 0x20, 0x00, 0x73, 0x00, 0x65, 0x00, 0x72, 0x00, 0x74, 0x00, 0x69, 0x00, 0x66, 0x00, 0x69, 0x00,
    0x6b, 0x00, 0x61, 0x00, 0x20, 0x00, 0x69, 0x00, 0x6c, 0x00, 0x65, 0x00, 0x20, 0x00, 0x69, 0x00, 0x6c, 0x00, 0x67, 0x00,
    0x69, 0x00, 0x6c, 0x00, 0x69, 0x00, 0x20, 0x00, 0x73, 0x00, 0x65, 0x00, 0x72, 0x00, 0x74, 0x00, 0x69, 0x00, 0x66, 0x00,
    0x69, 0x00, 0x6b, 0x00, 0x61, 0x00, 0x20, 0x00, 0x75, 0x00, 0x79, 0x00, 0x67, 0x00, 0x75, 0x00, 0x6c, 0x00, 0x61, 0x00,
    0x6d, 0x00, 0x61, 0x00, 0x20, 0x00, 0x65, 0x00, 0x73, 0x00, 0x61, 0x00, 0x73, 0x00, 0x6c, 0x00, 0x61, 0x00, 0x72, 0x01,
    0x31, 0x00, 0x6e, 0x01, 0x31, 0x00, 0x20, 0x00, 0x6f, 0x00, 0x6b, 0x00, 0x75, 0x00, 0x6d, 0x00, 0x61, 0x00, 0x6b, 0x00,
    0x20, 0x00, 0x69, 0x00, 0xe7, 0x00, 0x69, 0x00, 0x6e, 0x00, 0x20, 0x00, 0x62, 0x00, 0x65, 0x00, 0x6c, 0x00, 0x69, 0x00,
    0x72, 0x00, 0x74, 0x00, 0x69, 0x00, 0x6c, 0x00, 0x65, 0x00, 0x6e, 0x00, 0x20, 0x00, 0x77, 0x00, 0x65, 0x00, 0x62, 0x00,
    0x20, 0x00, 0x73, 0x00, 0x69, 0x00, 0x74, 0x00, 0x65, 0x00, 0x73, 0x00, 0x69, 0x00, 0x6e, 0x00, 0x69, 0x00, 0x20, 0x00,
    0x7a, 0x00, 0x69, 0x00, 0x79, 0x00, 0x61, 0x00, 0x72, 0x00, 0x65, 0x00, 0x74, 0x00, 0x20, 0x00, 0x65, 0x00, 0x64, 0x00,
    0x69, 0x00, 0x6e, 0x00, 0x69, 0x00, 0x7a, 0x00, 0x2e, 0x30, 0x08, 0x06, 0x06, 0x67, 0x81, 0x0c, 0x01, 0x02, 0x02, 0x30,
    0x09, 0x06, 0x03, 0x55, 0x1d, 0x13, 0x04, 0x02, 0x30, 0x00, 0x30, 0x1d, 0x06, 0x03, 0x55, 0x1d, 0x25, 0x04, 0x16, 0x30,
    0x14, 0x06, 0x08, 0x2b, 0x06, 0x01, 0x05, 0x05, 0x07, 0x03, 0x01, 0x06, 0x08, 0x2b, 0x06, 0x01, 0x05, 0x05, 0x07, 0x03,
    0x02, 0x30, 0x3c, 0x06, 0x03, 0x55, 0x1d, 0x1f, 0x04, 0x35, 0x30, 0x33, 0x30, 0x31, 0xa0, 0x2f, 0xa0, 0x2d, 0x86, 0x2b,
    0x68, 0x74, 0x74, 0x70, 0x3a, 0x2f, 0x2f, 0x64, 0x65, 0x70, 0x6f, 0x2e, 0x6b, 0x61, 0x6d, 0x75, 0x73, 0x6d, 0x2e, 0x67,
    0x6f, 0x76, 0x2e, 0x74, 0x72, 0x2f, 0x73, 0x73, 0x6c, 0x2f, 0x53, 0x53, 0x4c, 0x53, 0x49, 0x4c, 0x2e, 0x53, 0x31, 0x2e,
    0x63, 0x72, 0x6c, 0x30, 0x72, 0x06, 0x08, 0x2b, 0x06, 0x01, 0x05, 0x05, 0x07, 0x01, 0x01, 0x04, 0x66, 0x30, 0x64, 0x30,
    0x36, 0x06, 0x08, 0x2b, 0x06, 0x01, 0x05, 0x05, 0x07, 0x30, 0x02, 0x86, 0x2a, 0x68, 0x74, 0x74, 0x70, 0x3a, 0x2f, 0x2f,
    0x64, 0x65, 0x70, 0x6f, 0x2e, 0x6b, 0x61, 0x6d, 0x75, 0x73, 0x6d, 0x2e, 0x67, 0x6f, 0x76, 0x2e, 0x74, 0x72, 0x2f, 0x73,
    0x73, 0x6c, 0x2f, 0x53, 0x53, 0x4c, 0x53, 0x4d, 0x2e, 0x53, 0x31, 0x2e, 0x63, 0x65, 0x72, 0x30, 0x2a, 0x06, 0x08, 0x2b,
    0x06, 0x01, 0x05, 0x05, 0x07, 0x30, 0x01, 0x86, 0x1e, 0x68, 0x74, 0x74, 0x70, 0x3a, 0x2f, 0x2f, 0x6f, 0x63, 0x73, 0x70,
    0x73, 0x73, 0x6c, 0x73, 0x31, 0x2e, 0x6b, 0x61, 0x6d, 0x75, 0x73, 0x6d, 0x2e, 0x67, 0x6f, 0x76, 0x2e, 0x74, 0x72, 0x30,
    0x20, 0x06, 0x03, 0x55, 0x1d, 0x11, 0x04, 0x19, 0x30, 0x17, 0x82, 0x15, 0x74, 0x65, 0x73, 0x74, 0x73, 0x73, 0x6c, 0x2e,
    0x6b, 0x61, 0x6d, 0x75, 0x73, 0x6d, 0x2e, 0x67, 0x6f, 0x76, 0x2e, 0x74, 0x72, 0x30, 0x0d, 0x06, 0x09, 0x2a, 0x86, 0x48,
    0x86, 0xf7, 0x0d, 0x01, 0x01, 0x0b, 0x05, 0x00, 0x03, 0x82, 0x01, 0x01, 0x00, 0x57, 0xd7, 0x3c, 0xc7, 0x64, 0x8c, 0xb0,
    0x15, 0x13, 0xad, 0x01, 0x09, 0x86, 0x6c, 0x67, 0xac, 0xf7, 0x48, 0xf5, 0x6b, 0x79, 0xfd, 0xd3, 0xf5, 0x4a, 0x07, 0xb6,
    0x61, 0x5f, 0x73, 0xea, 0xab, 0x9b, 0x2d, 0xb1, 0x12, 0xbf, 0xb3, 0xb7, 0x4c, 0x85, 0x0b, 0xf2, 0xc4, 0x65, 0xf3, 0x90,
    0xc8, 0x47, 0x97, 0xec, 0xb7, 0x13, 0x1f, 0x1b, 0xc3, 0xb7, 0x76, 0xe0, 0x74, 0x9d, 0x1e, 0x77, 0xbb, 0x39, 0x20, 0xa7,
    0xa4, 0x4d, 0x77, 0x8c, 0x14, 0x06, 0xc4, 0xf2, 0x3f, 0xd0, 0xb4, 0x39, 0xee, 0x47, 0x0e, 0x52, 0x4e, 0x61, 0x79, 0xae,
    0xa8, 0x11, 0xb9, 0xed, 0xc6, 0x4c, 0xd6, 0xbb, 0xb0, 0xbd, 0x97, 0x8e, 0x42, 0xf7, 0x76, 0x89, 0xbb, 0x06, 0x1d, 0xd3,
    0x1d, 0xef, 0xc9, 0x85, 0xd1, 0x27, 0x0f, 0x43, 0x28, 0x25, 0xe0, 0x72, 0x85, 0xc2, 0x67, 0x83, 0x9f, 0x2f, 0x8c, 0x69,
    0xac, 0xa9, 0x63, 0xd3, 0x87, 0xfa, 0x05, 0x58, 0x1a, 0xc3, 0x75, 0xa8, 0x17, 0x1d, 0xac, 0x9d, 0x92, 0x0b, 0x90, 0xe6,
    0x78, 0x55, 0x60, 0x28, 0xb1, 0x6e, 0xb6, 0xe6, 0xf0, 0xe4, 0xf8, 0x5c, 0x9d, 0xde, 0x66, 0xea, 0x5a, 0xb6, 0xd1, 0xe6,
    0xc6, 0xf0, 0xf9, 0xa8, 0xc0, 0x40, 0x78, 0x63, 0x2e, 0xf6, 0x2b, 0xb8, 0xb5, 0x0b, 0xe4, 0x1c, 0xc3, 0xbb, 0xc7, 0x2b,
    0x63, 0x05, 0x6d, 0x2a, 0x18, 0xf8, 0x0e, 0x6a, 0x67, 0x1c, 0xba, 0xc1, 0x60, 0xa2, 0x48, 0x0e, 0xd0, 0x02, 0xf0, 0x3d,
    0xad, 0x25, 0x6c, 0x64, 0x56, 0x77, 0x11, 0xeb, 0x3e, 0x02, 0x2e, 0xe4, 0xdd, 0xf7, 0xc0, 0xfa, 0x93, 0x8b, 0x59, 0x1c,
    0xe6, 0xc2, 0xd2, 0x2f, 0x1d, 0x7a, 0xf0, 0x0e, 0x4d, 0x63, 0x24, 0x90, 0x3f, 0xb0, 0xac, 0x7f, 0x5e, 0xb5, 0xdf, 0x5c,
    0xbf, 0x3f, 0x30, 0xa9, 0xd2, 0xe3, 0xf3, 0x53, 0xd3,
];

/// The certificate that signed the leaf, itself signed by a well-known root.
const INTERMEDIATE: [u8; 1654] = [
    0x30, 0x82, 0x06, 0x72, 0x30, 0x82, 0x05, 0x5a, 0xa0, 0x03, 0x02, 0x01, 0x02, 0x02, 0x01, 0x29, 0x30, 0x0d, 0x06, 0x09,
    0x2a, 0x86, 0x48, 0x86, 0xf7, 0x0d, 0x01, 0x01, 0x0b, 0x05, 0x00, 0x30, 0x81, 0xd2, 0x31, 0x0b, 0x30, 0x09, 0x06, 0x03,
    0x55, 0x04, 0x06, 0x13, 0x02, 0x54, 0x52, 0x31, 0x18, 0x30, 0x16, 0x06, 0x03, 0x55, 0x04, 0x07, 0x13, 0x0f, 0x47, 0x65,
    0x62, 0x7a, 0x65, 0x20, 0x2d, 0x20, 0x4b, 0x6f, 0x63, 0x61, 0x65, 0x6c, 0x69, 0x31, 0x42, 0x30, 0x40, 0x06, 0x03, 0x55,
    0x04, 0x0a, 0x13, 0x39, 0x54, 0x75, 0x72, 0x6b, 0x69, 0x79, 0x65, 0x20, 0x42, 0x69, 0x6c, 0x69, 0x6d, 0x73, 0x65, 0x6c,
    0x20, 0x76, 0x65, 0x20, 0x54, 0x65, 0x6b, 0x6e, 0x6f, 0x6c, 0x6f, 0x6a, 0x69, 0x6b, 0x20, 0x41, 0x72, 0x61, 0x73, 0x74,
    0x69, 0x72, 0x6d, 0x61, 0x20, 0x4b, 0x75, 0x72, 0x75, 0x6d, 0x75, 0x20, 0x2d, 0x20, 0x54, 0x55, 0x42, 0x49, 0x54, 0x41,
    0x4b, 0x31, 0x2d, 0x30, 0x2b, 0x06, 0x03, 0x55, 0x04, 0x0b, 0x13, 0x24, 0x4b, 0x61, 0x6d, 0x75, 0x20, 0x53, 0x65, 0x72,
    0x74, 0x69, 0x66, 0x69, 0x6b, 0x61, 0x73, 0x79, 0x6f, 0x6e, 0x20, 0x4d, 0x65, 0x72, 0x6b, 0x65, 0x7a, 0x69, 0x20, 0x2d,
    0x20, 0x4b, 0x61, 0x6d, 0x75, 0x20, 0x53, 0x4d, 0x31, 0x36, 0x30, 0x34, 0x06, 0x03, 0x55, 0x04, 0x03, 0x13, 0x2d, 0x54,
    0x55, 0x42, 0x49, 0x54, 0x41, 0x4b, 0x20, 0x4b, 0x61, 0x6d, 0x75, 0x20, 0x53, 0x4d, 0x20, 0x53, 0x53, 0x4c, 0x20, 0x4b,
    0x6f, 0x6b, 0x20, 0x53, 0x65, 0x72, 0x74, 0x69, 0x66, 0x69, 0x6b, 0x61, 0x73, 0x69, 0x20, 0x2d, 0x20, 0x53, 0x75, 0x72,
    0x75, 0x6d, 0x20, 0x31, 0x30, 0x1e, 0x17, 0x0d, 0x31, 0x35, 0x30, 0x35, 0x31, 0x34, 0x31, 0x33, 0x33, 0x32, 0x32, 0x37,
    0x5a, 0x17, 0x0d, 0x32, 0x35, 0x30, 0x35, 0x31, 0x31, 0x31, 0x33, 0x33, 0x32, 0x32, 0x37, 0x5a, 0x30, 0x81, 0xdf, 0x31,
    0x0b, 0x30, 0x09, 0x06, 0x03, 0x55, 0x04, 0x06, 0x13, 0x02, 0x54, 0x52, 0x31, 0x18, 0x30, 0x16, 0x06, 0x03, 0x55, 0x04,
    0x07, 0x0c, 0x0f, 0x47, 0x65, 0x62, 0x7a, 0x65, 0x20, 0x2d, 0x20, 0x4b, 0x6f, 0x63, 0x61, 0x65, 0x6c, 0x69, 0x31, 0x42,
    0x30, 0x40, 0x06, 0x03, 0x55, 0x04, 0x0a, 0x0c, 0x39, 0x54, 0x75, 0x72, 0x6b, 0x69, 0x79, 0x65, 0x20, 0x42, 0x69, 0x6c,
    0x69, 0x6d, 0x73, 0x65, 0x6c, 0x20, 0x76, 0x65, 0x20, 0x54, 0x65, 0x6b, 0x6e, 0x6f, 0x6c, 0x6f, 0x6a, 0x69, 0x6b, 0x20,
    0x41, 0x72, 0x61, 0x73, 0x74, 0x69, 0x72, 0x6d, 0x61, 0x20, 0x4b, 0x75, 0x72, 0x75, 0x6d, 0x75, 0x20, 0x2d, 0x20, 0x54,
    0x55, 0x42, 0x49, 0x54, 0x41, 0x4b, 0x31, 0x2d, 0x30, 0x2b, 0x06, 0x03, 0x55, 0x04, 0x0b, 0x0c, 0x24, 0x4b, 0x61, 0x6d,
    0x75, 0x20, 0x53, 0x65, 0x72, 0x74, 0x69, 0x66, 0x69, 0x6b, 0x61, 0x73, 0x79, 0x6f, 0x6e, 0x20, 0x4d, 0x65, 0x72, 0x6b,
    0x65, 0x7a, 0x69, 0x20, 0x2d, 0x20, 0x4b, 0x61, 0x6d, 0x75, 0x20, 0x53, 0x4d, 0x31, 0x43, 0x30, 0x41, 0x06, 0x03, 0x55,
    0x04, 0x03, 0x0c, 0x3a, 0x54, 0x55, 0x42, 0x49, 0x54, 0x41, 0x4b, 0x20, 0x4b, 0x61, 0x6d, 0x75, 0x20, 0x53, 0x4d, 0x20,
    0x53, 0x53, 0x4c, 0x20, 0x53, 0x65, 0x72, 0x74, 0x69, 0x66, 0x69, 0x6b, 0x61, 0x20, 0x48, 0x69, 0x7a, 0x6d, 0x65, 0x74,
    0x20, 0x53, 0x61, 0x67, 0x6c, 0x61, 0x79, 0x69, 0x63, 0x69, 0x73, 0x69, 0x20, 0x2d, 0x20, 0x53, 0x75, 0x72, 0x75, 0x6d,
    0x20, 0x31, 0x30, 0x82, 0x01, 0x22, 0x30, 0x0d, 0x06, 0x09, 0x2a, 0x86, 0x48, 0x86, 0xf7, 0x0d, 0x01, 0x01, 0x01, 0x05,
    0x00, 0x03, 0x82, 0x01, 0x0f, 0x00, 0x30, 0x82, 0x01, 0x0a, 0x02, 0x82, 0x01, 0x01, 0x00, 0xbd, 0xbf, 0xa0, 0xe0, 0xac,
    0x3a, 0xce, 0x51, 0xae, 0xa5, 0x39, 0xc4, 0x0f, 0x2a, 0x66, 0xe1, 0xcc, 0xcb, 0x68, 0x6e, 0x8d, 0x41, 0x9e, 0x2d, 0xe6,
    0x38, 0xa9, 0xca, 0x08, 0x08, 0x4f, 0x8a, 0xb9, 0x2e, 0x5b, 0x2e, 0xf7, 0xb1, 0x2a, 0xb9, 0xad, 0x91, 0x94, 0xbf, 0xc0,
    0x2a, 0xd6, 0xc6, 0xa3, 0x9e, 0x3a, 0xb8, 0x8d, 0x94, 0x2d, 0x45, 0xee, 0x58, 0x9a, 0xe3, 0x21, 0xcc, 0x26, 0x9d, 0xfd,
    0xbc, 0x6f, 0x2f, 0xeb, 0x38, 0x1a, 0x8b, 0x17, 0xb2, 0xc8, 0x2c, 0x5e, 0x88, 0x8b, 0x77, 0x00, 0x51, 0xf3, 0x88, 0xec,
    0x7b, 0xc5, 0xf3, 0x88, 0xa8, 0xb4, 0xb9, 0x62, 0x06, 0xe6, 0xf8, 0x5c, 0x84, 0xc1, 0x25, 0xce, 0x2c, 0x0f, 0xb0, 0x8e,
    0x0e, 0xc5, 0x1e, 0x82, 0x79, 0xd0, 0x83, 0x73, 0x9b, 0xf6, 0x3e, 0x21, 0xe3, 0x7d, 0xea, 0x36, 0x01, 0x03, 0xff, 0xf5,
    0x1f, 0xd6, 0xfb, 0xe8, 0xa1, 0x48, 0xb0, 0x6b, 0x56, 0x9f, 0x50, 0xa9, 0x33, 0x38, 0x25, 0x48, 0xfa, 0x8a, 0xba, 0xc9,
    0xa8, 0x8a, 0xbe, 0x25, 0xdc, 0xdc, 0xd0, 0x10, 0x36, 0x1f, 0xeb, 0xcc, 0x66, 0x17, 0x30, 0x7f, 0x54, 0x36, 0xd8, 0x3d,
    0xdf, 0x74, 0x8f, 0xa6, 0xf3, 0xc7, 0x94, 0xff, 0xf1, 0x8f, 0x51, 0x47, 0x40, 0x96, 0xfe, 0x6e, 0xde, 0xe8, 0x30, 0x9f,
    0x32, 0xd0, 0x42, 0x8c, 0x24, 0x24, 0xba, 0x6e, 0x84, 0xf5, 0x17, 0x92, 0x7e, 0x01, 0xa2, 0xcd, 0xc0, 0xf3, 0x48, 0x66,
    0xd0, 0x40, 0x5c, 0x55, 0x04, 0x16, 0x17, 0x8b, 0xf8, 0x60, 0x06, 0xc3, 0xfa, 0x47, 0x24, 0xae, 0x64, 0xd0, 0x7d, 0x3e,
    0x0a, 0xee, 0xea, 0x14, 0xb1, 0xb2, 0x40, 0x69, 0x30, 0xfa, 0x29, 0xa6, 0x07, 0x95, 0x04, 0x16, 0xff, 0xf8, 0x47, 0x52,
    0x0d, 0x36, 0xd1, 0xaa, 0xd8, 0x79, 0x7d, 0x5b, 0x04, 0x94, 0x43, 0x02, 0x03, 0x01, 0x00, 0x01, 0xa3, 0x82, 0x02, 0x42,
    0x30, 0x82, 0x02, 0x3e, 0x30, 0x1f, 0x06, 0x03, 0x55, 0x1d, 0x23, 0x04, 0x18, 0x30, 0x16, 0x80, 0x14, 0x65, 0x3f, 0xc7,
    0x8a, 0x86, 0xc6, 0x3c, 0xdd, 0x3c, 0x54, 0x5c, 0x35, 0xf8, 0x3a, 0xed, 0x52, 0x0c, 0x47, 0x57, 0xc8, 0x30, 0x1d, 0x06,
    0x03, 0x55, 0x1d, 0x0e, 0x04, 0x16, 0x04, 0x14, 0xf6, 0x35, 0x35, 0x17, 0xae, 0x2e, 0xfb, 0xb7, 0x7d, 0xf7, 0x76, 0x17,
    0x8a, 0x65, 0x64, 0xeb, 0x67, 0x7a, 0x40, 0xab, 0x30, 0x0e, 0x06, 0x03, 0x55, 0x1d, 0x0f, 0x01, 0x01, 0xff, 0x04, 0x04,
    0x03, 0x02, 0x01, 0x06, 0x30, 0x82, 0x01, 0x1b, 0x06, 0x03, 0x55, 0x1d, 0x20, 0x04, 0x82, 0x01, 0x12, 0x30, 0x82, 0x01,
    0x0e, 0x30, 0x82, 0x01, 0x0a, 0x06, 0x04, 0x55, 0x1d, 0x20, 0x00, 0x30, 0x82, 0x01, 0x00, 0x30, 0x2b, 0x06, 0x08, 0x2b,
    0x06, 0x01, 0x05, 0x05, 0x07, 0x02, 0x01, 0x16, 0x1f, 0x68, 0x74, 0x74, 0x70, 0x3a, 0x2f, 0x2f, 0x64, 0x65, 0x70, 0x6f,
    0x2e, 0x6b, 0x61, 0x6d, 0x75, 0x73, 0x6d, 0x2e, 0x67, 0x6f, 0x76, 0x2e, 0x74, 0x72, 0x2f, 0x69, 0x6c, 0x6b, 0x65, 0x2f,
    0x30, 0x81, 0xd0, 0x06, 0x08, 0x2b, 0x06, 0x01, 0x05, 0x05, 0x07, 0x02, 0x02, 0x30, 0x81, 0xc3, 0x1e, 0x81, 0xc0, 0x00,
    0x42, 0x00, 0x75, 0x00, 0x20, 0x00, 0x73, 0x00, 0x65, 0x00, 0x72, 0x00, 0x74, 0x00, 0x69, 0x00, 0x66, 0x00, 0x69, 0x00,
    0x6b, 0x00, 0x61, 0x00, 0x20, 0x00, 0x69, 0x00, 0x6c, 0x00, 0x65, 0x00, 0x20, 0x00, 0x69, 0x00, 0x6c, 0x00, 0x67, 0x00,
    0x69, 0x00, 0x6c, 0x00, 0x69, 0x00, 0x20, 0x00, 0x53, 0x00, 0x65, 0x00, 0x72, 0x00, 0x74, 0x00, 0x69, 0x00, 0x66, 0x00,
    0x69, 0x00, 0x6b, 0x00, 0x61, 0x00, 0x20, 0x00, 0x49, 0x00, 0x6c, 0x00, 0x6b, 0x00, 0x65, 0x00, 0x6c, 0x00, 0x65, 0x00,
    0x72, 0x00, 0x69, 0x00, 0x6e, 0x00, 0x69, 0x00, 0x20, 0x00, 0x6f, 0x00, 0x6b, 0x00, 0x75, 0x00, 0x6d, 0x00, 0x61, 0x00,
    0x6b, 0x00, 0x20, 0x00, 0x69, 0x00, 0xe7, 0x00, 0x69, 0x00, 0x6e, 0x00, 0x20, 0x00, 0x62, 0x00, 0x65, 0x00, 0x6c, 0x00,
    0x69, 0x00, 0x72, 0x00, 0x74, 0x00, 0x69, 0x00, 0x6c, 0x00, 0x65, 0x00, 0x6e, 0x00, 0x20, 0x00, 0x77, 0x00, 0x65, 0x00,
    0x62, 0x00, 0x20, 0x00, 0x73, 0x00, 0x69, 0x00, 0x74, 0x00, 0x65, 0x00, 0x73, 0x00, 0x69, 0x00, 0x6e, 0x00, 0x69, 0x00,
    0x20, 0x00, 0x7a, 0x00, 0x69, 0x00, 0x79, 0x00, 0x61, 0x00, 0x72, 0x00, 0x65, 0x00, 0x74, 0x00, 0x20, 0x00, 0x65, 0x00,
    0x64, 0x00, 0x69, 0x00, 0x6e, 0x00, 0x69, 0x00, 0x7a, 0x00, 0x2e, 0x30, 0x12, 0x06, 0x03, 0x55, 0x1d, 0x13, 0x01, 0x01,
    0xff, 0x04, 0x08, 0x30, 0x06, 0x01, 0x01, 0xff, 0x02, 0x01, 0x00, 0x30, 0x3f, 0x06, 0x03, 0x55, 0x1d, 0x1f, 0x04, 0x38,
    0x30, 0x36, 0x30, 0x34, 0xa0, 0x32, 0xa0, 0x30, 0x86, 0x2e, 0x68, 0x74, 0x74, 0x70, 0x3a, 0x2f, 0x2f, 0x64, 0x65, 0x70,
    0x6f, 0x2e, 0x6b, 0x61, 0x6d, 0x75, 0x73, 0x6d, 0x2e, 0x67, 0x6f, 0x76, 0x2e, 0x74, 0x72, 0x2f, 0x73, 0x73, 0x6c, 0x2f,
    0x53, 0x53, 0x4c, 0x4b, 0x4f, 0x4b, 0x53, 0x49, 0x4c, 0x2e, 0x53, 0x31, 0x2e, 0x63, 0x72, 0x6c, 0x30, 0x78, 0x06, 0x08,
    0x2b, 0x06, 0x01, 0x05, 0x05, 0x07, 0x01, 0x01, 0x04, 0x6c, 0x30, 0x6a, 0x30, 0x39, 0x06, 0x08, 0x2b, 0x06, 0x01, 0x05,
    0x05, 0x07, 0x30, 0x02, 0x86, 0x2d, 0x68, 0x74, 0x74, 0x70, 0x3a, 0x2f, 0x2f, 0x64, 0x65, 0x70, 0x6f, 0x2e, 0x6b, 0x61,
    0x6d, 0x75, 0x73, 0x6d, 0x2e, 0x67, 0x6f, 0x76, 0x2e, 0x74, 0x72, 0x2f, 0x73, 0x73, 0x6c, 0x2f, 0x53, 0x53, 0x4c, 0x4b,
    0x4f, 0x4b, 0x53, 0x4d, 0x2e, 0x53, 0x31, 0x2e, 0x63, 0x65, 0x72, 0x30, 0x2d, 0x06, 0x08, 0x2b, 0x06, 0x01, 0x05, 0x05,
    0x07, 0x30, 0x01, 0x86, 0x21, 0x68, 0x74, 0x74, 0x70, 0x3a, 0x2f, 0x2f, 0x6f, 0x63, 0x73, 0x70, 0x73, 0x73, 0x6c, 0x6b,
    0x6f, 0x6b, 0x73, 0x31, 0x2e, 0x6b, 0x61, 0x6d, 0x75, 0x73, 0x6d, 0x2e, 0x67, 0x6f, 0x76, 0x2e, 0x74, 0x72, 0x30, 0x0d,
    0x06, 0x09, 0x2a, 0x86, 0x48, 0x86, 0xf7, 0x0d, 0x01, 0x01, 0x0b, 0x05, 0x00, 0x03, 0x82, 0x01, 0x01, 0x00, 0xac, 0x30,
    0x77, 0xff, 0x1f, 0x8a, 0xff, 0xd4, 0x93, 0x5f, 0xf4, 0x5c, 0x54, 0xa4, 0x4f, 0x3b, 0x99, 0xaf, 0xd3, 0x75, 0x25, 0x8b,
    0xee, 0xed, 0x89, 0x99, 0x39, 0xd6, 0x2a, 0x68, 0xe4, 0x8b, 0x69, 0x3e, 0x94, 0x94, 0x6e, 0x31, 0xeb, 0x5f, 0x2e, 0x04,
    0xc2, 0xd7, 0x34, 0x46, 0xb6, 0xbf, 0xcc, 0x51, 0x47, 0x1f, 0xb0, 0x04, 0x17, 0x10, 0x14, 0x53, 0x74, 0x8b, 0xd4, 0xcd,
    0xec, 0x65, 0xc9, 0x93, 0x31, 0x2b, 0xd2, 0x7d, 0x58, 0x5b, 0x35, 0x6e, 0xa4, 0x65, 0x41, 0x35, 0x55, 0x16, 0x34, 0x66,
    0x19, 0xc1, 0x65, 0xed, 0x29, 0x63, 0x57, 0x80, 0x39, 0x7c, 0x63, 0xd3, 0x71, 0x53, 0xa8, 0x41, 0xab, 0xba, 0xc8, 0x45,
    0xcb, 0x04, 0xea, 0x82, 0xb1, 0x59, 0x74, 0xbb, 0x90, 0xff, 0x84, 0x9f, 0x63, 0xcf, 0xfc, 0x69, 0xfc, 0x88, 0xe5, 0x2b,
    0x47, 0xea, 0x70, 0x0e, 0x88, 0xc8, 0x32, 0x0c, 0xda, 0x69, 0x97, 0xdd, 0xd7, 0x21, 0x2d, 0x14, 0xeb, 0x3c, 0xf5, 0x88,
    0x23, 0xb0, 0x6f, 0xa4, 0xe8, 0x05, 0x84, 0xc0, 0x20, 0xaf, 0x81, 0x14, 0xfd, 0x38, 0x3c, 0xc0, 0x36, 0xc2, 0xa7, 0x3b,
    0xba, 0x58, 0x10, 0x1f, 0x4b, 0xae, 0xf2, 0x93, 0xcf, 0xce, 0x47, 0x51, 0xa2, 0xcb, 0x4c, 0x6b, 0x1c, 0x2d, 0x4a, 0xb7,
    0x9e, 0x74, 0x0f, 0x9c, 0x08, 0x61, 0x31, 0x2b, 0x93, 0xb2, 0x03, 0xf0, 0x57, 0xd1, 0x5b, 0x63, 0x94, 0x45, 0x31, 0x25,
    0xc9, 0xa6, 0xa1, 0x8d, 0xdf, 0x5c, 0xee, 0xb3, 0xd6, 0xad, 0x3f, 0x1b, 0x63, 0xd6, 0xb6, 0xf9, 0x6c, 0x05, 0x90, 0x75,
    0x91, 0x09, 0x16, 0xa5, 0x48, 0x1a, 0x4d, 0xca, 0x22, 0x59, 0x43, 0xbf, 0xf2, 0xa3, 0x19, 0x46, 0x02, 0xe6, 0x63, 0xe8,
    0xe5, 0x0a, 0x4b, 0x63, 0xaa, 0x9e, 0xe6, 0x92, 0xbc, 0x2e, 0xb2, 0xbc, 0xc4, 0x1e,
];

/// 2017-05-01T19:54:39Z.
const THEN: i64 = 1_493_668_479;

fn chain() -> Vec<Vec<u8>> {
    vec![LEAF.to_vec(), INTERMEDIATE.to_vec()]
}

#[test]
fn a_trusted_chain_is_valid_for_its_host() {
    let r = check("testssl.kamusm.gov.tr", &chain(), THEN);
    assert!(r.is_valid);
    assert!(r.chain_ok);
    assert!(r.hostname_match);
    assert!(!r.self_signed);
    assert_eq!(r.valid_from, Some(1_488_865_447));
    assert_eq!(r.valid_until, Some(1_583_473_447));
    assert_eq!(r.days_remaining, Some((1_583_473_447 - THEN) / 86_400));
    assert_eq!(r.error, None);
    assert_eq!(
        r.subject.unwrap(),
        "C=TR, ST=TURKIYE, L=KOCAELI, O=TUBITAK, OU=KamuSM, CN=testssl.kamusm.gov.tr"
    );
}

#[test]
fn validity_needs_trust_time_and_name() {
    let late = check("testssl.kamusm.gov.tr", &chain(), 1_600_000_000);
    assert!(!late.is_valid);
    assert!(!late.chain_ok);
    assert!(late.hostname_match);
    let other = check("example.com", &chain(), THEN);
    assert!(!other.is_valid);
    assert!(other.chain_ok);
    assert!(!other.hostname_match);
    let alone = check("testssl.kamusm.gov.tr", &vec![LEAF.to_vec()], THEN);
    assert!(!alone.chain_ok);
    assert!(alone.self_signed);
    let early = check("testssl.kamusm.gov.tr", &chain(), -1);
    assert!(!early.chain_ok);
}

#[test]
fn a_self_signed_certificate_is_seen_as_such() {
    let r = check("www.example.com", &vec![SELF_SIGNED.to_vec()], 1_640_000_000);
    assert_eq!(r.issuer, Some("C=DE, CN=www.example.com".to_string()));
    assert_eq!(r.subject, r.issuer);
    assert_eq!(r.valid_from, Some(1_627_389_434));
    assert_eq!(r.valid_until, Some(1_687_869_434));
    assert!(r.self_signed);
    assert!(r.hostname_match);
    assert!(!r.chain_ok);
    assert!(!r.is_valid);
}

#[test]
fn an_unreadable_chain_is_an_error() {
    let none = check("h", &vec![], THEN);
    assert_eq!(none.error.unwrap(), "server presented an empty certificate chain");
    let junk = check("h", &vec![vec![1, 2, 3]], THEN);
    assert!(junk.error.unwrap().starts_with("failed to parse leaf certificate: "));
    assert!(!junk.is_valid);
    assert_eq!(junk.valid_until, None);
    assert!(!verify_chain(&[1, 2, 3], &vec![], 0));
    assert!(verify_chain(&LEAF, &vec![INTERMEDIATE.to_vec()], THEN as u64));
}

fn leaf(names: &[Option<&str>], cn: Option<&str>) -> LeafFacts {
    LeafFacts {
        issuer: "CN=ca".into(),
        subject: "CN=x".into(),
        valid_from: 100,
        valid_until: 200,
        alternative_names: names.iter().map(|n| n.map(str::to_string)).collect(),
        common_name: cn.map(str::to_string),
    }
}

#[test]
fn an_assessment_weighs_time_trust_and_name() {
    let f = leaf(&[Some("a.com"), None], Some("b.com"));
    let valid = |now| assess(&f, 2, true, "a.com", now).is_valid;
    assert!(!valid(99));
    assert!(valid(100));
    assert!(valid(200));
    assert!(!valid(201));
    assert!(!assess(&f, 2, false, "a.com", 150).is_valid);
    assert!(!assess(&f, 2, true, "b.com", 150).is_valid);
    assert!(assess(&leaf(&[None], Some("b.com")), 2, true, "b.com", 150).hostname_match);
    assert!(!assess(&f, 2, true, "a.com", 150).self_signed);
    assert!(assess(&f, 1, true, "a.com", 150).self_signed);
    assert_eq!(assess(&f, 2, true, "a.com", 201).days_remaining, Some(-1));
    assert_eq!(assess(&f, 2, true, "a.com", 200).days_remaining, Some(0));
}

#[test]
fn a_wildcard_is_one_label() {
    let sans = vec!["*.Example.com".to_string()];
    assert!(hostname_matches(&sans, None, "WWW.example.com"));
    assert!(!hostname_matches(&sans, None, "example.com"));
    assert!(!hostname_matches(&sans, None, "a.b.example.com"));
    assert!(!hostname_matches(&sans, Some("example.com"), "example.com"));
    assert!(hostname_matches(&[], Some("example.com"), "example.com"));
    assert!(!hostname_matches(&[], None, "example.com"));
}

#[test]
fn a_certificate_monitor_is_up_while_its_certificate_is_valid() {
    let valid = check("testssl.kamusm.gov.tr", &chain(), THEN);
    let up = ssl_probe(&valid, 12);
    assert!(up.ok);
    assert_eq!((up.response_time_ms, up.error_message, up.cause), (Some(12), None, None));
    let invalid = ssl_probe(&check("example.com", &chain(), THEN), 12);
    assert!(!invalid.ok);
    assert_eq!(invalid.cause, Some(Cause::Ssl));
    assert_eq!(invalid.error_message, Some("certificate is not valid".to_string()));
    let failed = ssl_probe(&obstructed(&Obstacle::ConnectTimeout, "h", 443), 12);
    assert_eq!(failed.error_message, Some("timed out connecting to h:443".to_string()));
}

#[test]
fn obstacles_are_named() {
    let says = |o: Obstacle| obstructed(&o, "h", 443).error.unwrap();
    assert_eq!(says(Obstacle::Connect("refused".into())), "connect failed: refused");
    assert_eq!(says(Obstacle::ConnectTimeout), "timed out connecting to h:443");
    assert_eq!(says(Obstacle::Config("bad".into())), "tls config error: bad");
    assert_eq!(
        says(Obstacle::ServerName("\"h h\"".into(), "no".into())),
        "invalid server name \"h h\": no"
    );
    assert_eq!(says(Obstacle::Handshake("eof".into())), "tls handshake failed: eof");
    assert_eq!(says(Obstacle::HandshakeTimeout), "timed out during tls handshake to h:443");
    assert_eq!(
        says(Obstacle::NothingCaptured),
        "tls handshake completed but no certificate chain was captured"
    );
    assert!(SslResult::default().error.is_none());
}

#[test]
fn a_registrable_domain_is_one_label_below_its_suffix() {
    assert_eq!(registrable_domain("www.example.com"), "example.com");
    assert_eq!(registrable_domain("a.b.example.co.uk"), "example.co.uk");
    assert_eq!(registrable_domain("localhost"), "localhost");
    assert_eq!(registrable_domain("Example.COM."), "example.com");
}

fn text(s: &str) -> Json {
    Json::Str(s.to_string())
}

fn object(members: Vec<(&str, Json)>) -> Json {
    Json::Object(members.into_iter().map(|(k, v)| (k.to_string(), v)).collect())
}

fn rdap() -> Json {
    object(vec![
        (
            "events",
            Json::Array(vec![
                object(vec![
                    ("eventAction", text("registration")),
                    ("eventDate", text("1995-08-14T04:00:00Z")),
                ]),
                object(vec![
                    ("eventAction", text("expiration")),
                    ("eventDate", text("2030-01-02T03:04:05Z")),
                ]),
            ]),
        ),
        (
            "entities",
            Json::Array(vec![object(vec![
                ("roles", Json::Array(vec![text("registrar")])),
                (
                    "vcardArray",
                    Json::Array(vec![
                        text("vcard"),
                        Json::Array(vec![Json::Array(vec![
                            text("fn"),
                            object(vec![]),
                            text("text"),
                            text("Registrar Inc."),
                        ])]),
                    ]),
                ),
            ])]),
        ),
        ("nameservers", Json::Array(vec![object(vec![("ldhName", text("NS1.EXAMPLE.COM"))])])),
        ("status", Json::Array(vec![text("active"), Json::Int(1)])),
    ])
}

#[test]
fn a_registration_record_is_read() {
    let r = parse_rdap(&rdap()).unwrap();
    assert_eq!(r.expiry_date, Some(1_893_553_445));
    assert_eq!(r.registrar, Some("Registrar Inc.".to_string()));
    assert_eq!(r.name_servers, vec!["NS1.EXAMPLE.COM".to_string()]);
    assert_eq!(r.status_codes, vec!["active".to_string()]);
    assert!(r.queryable);
    assert_eq!(r.source, Some("rdap".to_string()));
    assert_eq!(rdap_url("example.com"), "https://rdap.org/domain/example.com");
}

fn done(s: Step) -> DomainResult {
    match s {
        Step::Done(r) => r,
        other => panic!("not an answer: {other:?}"),
    }
}

#[test]
fn a_registration_service_reply_is_classified() {
    assert!(done(after_rdap(&RdapReply::Failed)).transient);
    assert!(done(after_rdap(&RdapReply::Status(429))).transient);
    assert!(done(after_rdap(&RdapReply::Status(500))).transient);
    assert!(done(after_rdap(&RdapReply::Status(599))).transient);
    assert!(matches!(after_rdap(&RdapReply::Status(404)), Step::AskWhois));
    let refused = done(after_rdap(&RdapReply::Status(403)));
    assert!(!refused.transient);
    assert!(!refused.queryable);
    assert_eq!(refused.source, Some("rdap".to_string()));
    assert!(done(after_rdap(&RdapReply::Body(Some(rdap())))).queryable);
    assert!(!done(after_rdap(&RdapReply::Body(Some(object(vec![]))))).queryable);
    assert!(!done(after_rdap(&RdapReply::Body(None))).transient);
}

#[test]
fn a_whois_answer_is_read() {
    let answer = "Domain Name: EXAMPLE.COM\r\nRegistrar: Registrar Inc.\r\n\
                  Registry Expiry Date: 2030-01-02T03:04:05Z\r\n\
                  Domain Status: clientTransferProhibited https://icann.org/epp\r\n\
                  Name Server: NS1.EXAMPLE.COM\r\nName Server:\r\n";
    let r = parse_whois(answer);
    assert_eq!(r.registrar, Some("Registrar Inc.".to_string()));
    assert_eq!(r.expiry_date, Some(1_893_553_445));
    assert_eq!(r.status_codes, vec!["clientTransferProhibited".to_string()]);
    assert_eq!(r.name_servers, vec!["ns1.example.com".to_string()]);
    assert!(r.queryable);
    assert_eq!(after_whois(&Some(answer.to_string())).expiry_date, Some(1_893_553_445));
    assert!(after_whois(&None).transient);
    assert!(!parse_whois("No match").queryable);
}

#[test]
fn a_whois_server_is_asked_and_read() {
    assert_eq!(whois_request("example.com"), "example.com\r\n");
    assert_eq!(whois_answer("registrar: Señal".as_bytes()), "registrar: Señal");
    assert_eq!(whois_answer(b"refer: \xe9 a"), "refer: \u{fffd} a");
}

#[test]
fn whois_dates_come_in_many_shapes() {
    let day = Some(1_893_542_400);
    assert_eq!(parse_whois_date("2030-01-02"), day);
    assert_eq!(parse_whois_date(" 2030-01-02 extra"), day);
    assert_eq!(parse_whois_date("02-Jan-2030"), day);
    assert_eq!(parse_whois_date("2030.01.02"), day);
    assert_eq!(parse_whois_date("2030/01/02"), day);
    assert_eq!(parse_whois_date("2030-01-02t03:04:05z"), Some(1_893_553_445));
    assert_eq!(parse_whois_date("2030-01-02T03:04:05+01:00"), Some(1_893_549_845));
    assert_eq!(parse_whois_date("soon"), None);
    assert_eq!(parse_whois_date(""), None);
}

#[test]
fn a_referral_is_followed() {
    assert_eq!(find_referral("% x\nrefer:   WHOIS.NIC.COM\n"), Some("whois.nic.com".to_string()));
    assert_eq!(find_referral("whois: w.example\n"), Some("w.example".to_string()));
    assert_eq!(find_referral("refer:\nwhois: w\n"), Some("w".to_string()));
    assert_eq!(find_referral("nothing"), None);
    assert!(matches!(
        after_root_whois(&Some("refer: w".to_string())),
        Step::AskServer(s) if s == "w"
    ));
    assert!(done(after_root_whois(&None)).transient);
    assert!(!done(after_root_whois(&Some(String::new()))).transient);
}

fn monitor(kind: &str, url: Option<&str>, host: Option<&str>, port: Option<i64>) -> Monitor {
    Monitor {
        id: 1,
        name: "site".into(),
        kind: kind.into(),
        url: url.map(str::to_string),
        host: host.map(str::to_string),
        port,
        ssl_alert_days: "[30,14,7,1]".into(),
        domain_alert_days: "[30,7]".into(),
        ..test_defaults_monitor()
    }
}

#[test]
fn a_certificate_is_looked_for_where_it_is_served() {
    let at = |m: Monitor| ssl_target(&m);
    assert_eq!(
        at(monitor("http", Some("https://Example.com/x"), None, None)),
        Some(("example.com".to_string(), 443))
    );
    assert_eq!(
        at(monitor("http", Some("https://example.com:8443"), None, None)),
        Some(("example.com".to_string(), 8443))
    );
    assert_eq!(at(monitor("http", Some("http://example.com"), None, None)), None);
    assert_eq!(at(monitor("http", Some("nonsense"), None, None)), None);
    assert_eq!(at(monitor("http", None, Some("h"), None)), None);
    assert_eq!(at(monitor("ssl", None, Some("h"), None)), Some(("h".to_string(), 443)));
    assert_eq!(at(monitor("ssl", None, Some("h"), Some(465))), Some(("h".to_string(), 465)));
    assert_eq!(at(monitor("ssl", Some("https://x"), Some(""), None)), None);
    let parts = |scheme: &str, host: Option<&str>, port| {
        Some(UrlParts { scheme: scheme.into(), host: host.map(str::to_string), port })
    };
    assert_eq!(target_of(&parts("https", Some("h"), None)), Some(("h".to_string(), 443)));
    assert_eq!(target_of(&parts("https", Some("h"), Some(9))), Some(("h".to_string(), 9)));
    assert_eq!(target_of(&parts("https", None, Some(9))), None);
    assert_eq!(target_of(&parts("ftp", Some("h"), None)), None);
    assert_eq!(target_of(&None), None);
    assert_eq!(no_target().error.unwrap(), "no ssl target configured for this monitor");
}

#[test]
fn a_registration_belongs_to_a_host() {
    let of = |m: Monitor| domain_host(&m);
    assert_eq!(of(monitor("http", Some("http://a.com"), Some("b.com"), None)).unwrap(), "b.com");
    assert_eq!(of(monitor("http", Some("http://A.com/p"), Some(""), None)).unwrap(), "a.com");
    assert_eq!(of(monitor("http", Some("::"), None, None)), None);
    assert_eq!(of(monitor("http", None, None, None)), None);
    assert_eq!(monitor_ctx_url(&monitor("http", Some("u"), Some("h"), None)), "u");
    assert_eq!(monitor_ctx_url(&monitor("tcp", None, Some("h"), None)), "h");
    assert_eq!(monitor_ctx_url(&monitor("tcp", None, None, None)), "");
}

#[test]
fn an_invalid_certificate_is_alerted_once() {
    let m = monitor("http", Some("https://x"), None, None);
    let first = evaluate_ssl_alerts(&m, None, false, &None, None, false, 5);
    assert_eq!(first.invalid.unwrap().monitor_name, "site");
    assert!(first.invalid_alerted);
    let second = evaluate_ssl_alerts(&m, None, false, &None, None, true, 6);
    assert!(second.invalid.is_none());
    assert!(second.invalid_alerted);
    let valid = evaluate_ssl_alerts(&m, None, true, &None, None, true, 7);
    assert!(!valid.invalid_alerted);
    let unreachable_host =
        evaluate_ssl_alerts(&m, None, false, &Some("connect failed".into()), None, true, 8);
    assert!(unreachable_host.invalid.is_none());
    assert!(unreachable_host.invalid_alerted);
    let own = evaluate_ssl_alerts(&monitor("ssl", None, Some("h"), None), None, false, &None, None, false, 9);
    assert!(own.invalid.is_none());
}

#[test]
fn an_expiry_is_alerted_once_for_each_threshold() {
    let m = monitor("http", Some("https://x"), None, None);
    let at = |days, old| evaluate_ssl_alerts(&m, Some(days), true, &None, old, false, 5);
    let first = at(25, None);
    assert_eq!(first.expiring.unwrap().ssl_days, Some(25));
    assert_eq!(first.alerted_days, Some(30));
    assert!(at(24, Some(30)).expiring.is_none());
    assert_eq!(at(10, Some(30)).alerted_days, Some(14));
    assert_eq!(at(90, Some(30)).alerted_days, None);
    let mut odd = monitor("http", Some("https://x"), None, None);
    odd.ssl_alert_days = "none".into();
    assert!(evaluate_ssl_alerts(&odd, Some(1), true, &None, None, false, 5).expiring.is_none());
    let domain = evaluate_domain_alerts(&m, Some(20), None, 5);
    assert_eq!(domain.expiring.unwrap().domain_days, Some(20));
    assert_eq!(domain.alerted_days, Some(30));
    assert!(evaluate_domain_alerts(&m, None, Some(30), 5).expiring.is_none());
}

#[test]
fn an_offline_refresh_alerts_nobody() {
    let m = monitor("http", Some("https://x"), None, None);
    let invalid = SslResult { is_valid: false, days_remaining: Some(3), ..SslResult::default() };
    let online = refresh_ssl(&m, &invalid, Some((None, 0)), Connectivity::Online, 5);
    assert!(online.invalid.is_some());
    assert!(online.expiring.is_some());
    let offline = refresh_ssl(&m, &invalid, Some((Some(30), 1)), Connectivity::Offline, 5);
    assert!(offline.invalid.is_none());
    assert!(offline.expiring.is_none());
    assert_eq!(offline.alerted_days, Some(30));
    assert!(offline.invalid_alerted);
}

#[test]
fn a_transient_domain_failure_stores_nothing() {
    let m = monitor("http", Some("https://x"), None, None);
    let answer = |expiry_date, transient| DomainResult {
        registrar: None,
        expiry_date,
        name_servers: vec!["a".into(), "b\"".into()],
        status_codes: vec![],
        queryable: expiry_date.is_some(),
        source: Some("rdap".into()),
        transient,
    };
    assert!(refresh_domain(&m, &answer(None, true), None, Connectivity::Online, 5).is_none());
    let now = 1_000_000;
    let known = answer(Some(now + 10 * 86_400 + 1), false);
    let stored = refresh_domain(&m, &known, None, Connectivity::Online, now).unwrap();
    assert_eq!(stored.days_remaining, Some(10));
    assert_eq!(stored.name_servers, "[\"a\",\"b\\\"\"]");
    assert_eq!(stored.status_codes, "[]");
    assert_eq!(stored.alert.alerted_days, Some(30));
    assert!(stored.alert.expiring.is_some());
    let offline = refresh_domain(&m, &known, None, Connectivity::Offline, now).unwrap();
    assert!(offline.alert.expiring.is_none());
    assert_eq!(offline.alert.alerted_days, None);
}

#[test]
fn refreshes_have_a_cutoff_and_a_timeout() {
    assert_eq!(cutoff(1000, 300), Some(700));
    assert_eq!(cutoff(-2, i64::MAX), None);
    assert_eq!(check_timeout(10), 10);
    assert_eq!(check_timeout(0), 1);
    assert_eq!(check_timeout(-4), 1);
}
