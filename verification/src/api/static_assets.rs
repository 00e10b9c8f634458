//! Where the web application lies.

use vstd::prelude::*;

use crate::notify;
use crate::notify::own_or;
use crate::text;

verus! {

/// The directory of the web application where no other is named.
pub const DEFAULT_WEB_DIR: &'static str = "/srv/web-dist";

/// `r` is the directory of the web application and its page.
pub open spec fn is_service(named: Option<String>, r: (String, String)) -> bool {
    &&& r.0@ == notify::text_or(named, DEFAULT_WEB_DIR@)
    &&& r.1@ == notify::text_or(named, DEFAULT_WEB_DIR@) + "/index.html"@
}

/// The directory of the web application, and the page that answers every path in it that has no
/// file, from the value of `VIGIL_WEB_DIR`.
pub fn service(named: &Option<String>) -> (r: (String, String))
    ensures
        is_service(*named, r),
{
    let dir = own_or(named, DEFAULT_WEB_DIR);
    let mut index = text::own(dir.as_str());
    index.append("/index.html");
    (dir, index)
}

/// The application is served from the directory that is named, else from the default, and every path
/// without a file is answered by the index page of that same directory.
pub proof fn law_page_stands_in_its_directory(named: Option<String>, r: (String, String))
    requires
        is_service(named, r),
    ensures
        named matches Some(dir) ==> r.0@ == dir@,
        named is None ==> r.0@ == "/srv/web-dist"@,
        r.1@ == r.0@ + "/index.html"@,
{
}

} // verus!
