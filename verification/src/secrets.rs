//! Where the mail password comes from.

use vstd::prelude::*;

use crate::notify;
use crate::notify::{own_opt, own_or};
use crate::text;

verus! {

/// The secret file where no other is named.
pub const DEFAULT_SECRET_FILE: &'static str = "/run/secrets/smtp_password";

/// What became of the secret file.
#[derive(Clone, Debug)]
pub enum SecretFile {
    Absent,
    Unreadable,
    Contents(String),
}

/// The path of the secret file: the named one, or else the default.
pub fn secret_path(named: &Option<String>) -> (r: String)
    ensures
        r@ == notify::text_or(*named, DEFAULT_SECRET_FILE@),
{
    own_or(named, DEFAULT_SECRET_FILE)
}

/// The mail password.
pub open spec fn password(file: SecretFile, environment: Option<String>) -> Option<Seq<char>> {
    match file {
        SecretFile::Contents(s) => Some(text::trimmed(s@)),
        SecretFile::Unreadable => None,
        SecretFile::Absent => text::view_opt(environment),
    }
}

/// The mail password: what the secret file holds, without white space round it, where there is such
/// a file. One that cannot be read means no password; only where there is none does the environment
/// decide.
pub fn read_smtp_password(file: &SecretFile, environment: &Option<String>) -> (r: Option<String>)
    ensures
        text::view_opt(r) == password(*file, *environment),
{
    match file {
        SecretFile::Contents(s) => Some(text::trim(s.as_str())),
        SecretFile::Unreadable => None,
        SecretFile::Absent => own_opt(environment),
    }
}

/// A secret file goes before the environment, whatever that holds: its contents are the password
/// without the white space around them, and one that cannot be read means none. Without a file the
/// environment has the password, as it stands.
pub proof fn law_file_goes_before_the_environment(
    file: SecretFile,
    environment: Option<String>,
    other: Option<String>,
)
    ensures
        !(file is Absent) ==> password(file, environment) == password(file, other),
        file matches SecretFile::Contents(s) ==> password(file, environment) == Some(
            text::trimmed(s@),
        ),
        file is Unreadable ==> password(file, environment) is None,
        file is Absent && environment is None ==> password(file, environment) is None,
        file is Absent && environment is Some ==> password(file, environment) == Some(
            (environment->0)@,
        ),
{
}

} // verus!
