//! Where the application keeps its data, and how screenshot files are named.

use vstd::prelude::*;
use vstd::string::StringExecFns;
use crate::text::{chars_of, push_char};

verus! {

/// Whether `c` separates path components on a platform whose main separator
/// is `sep`: '/' always does ('/' on Unix; '/' and '\\' on Windows).
pub open spec fn is_separator(c: char, sep: char) -> bool {
    c == '/' || c == sep
}

/// `Path::join` of a relative path onto a base that is not a bare Windows
/// drive prefix, on a platform whose main separator is `sep`: the base, `sep`
/// unless the base is empty or already ends in a separator, then the
/// relative path.
pub open spec fn join_path(base: Seq<char>, rel: Seq<char>, sep: char) -> Seq<char> {
    if base.len() == 0 || is_separator(base.last(), sep) {
        base + rel
    } else {
        base + seq![sep] + rel
    }
}

/// Joins the relative path `rel` onto `base`, with main separator `sep`
/// (`std::path::MAIN_SEPARATOR` of the platform).
pub fn join(base: &str, rel: &str, sep: char) -> (path: String)
    ensures
        path@ == join_path(base@, rel@, sep),
{
    let chars = chars_of(base);
    let n = chars.len();
    let mut path = String::from_str(base);
    if n > 0 && chars[n - 1] != '/' && chars[n - 1] != sep {
        push_char(&mut path, sep);
    }
    path.append(rel);
    path
}

/// The error reported when the user has no home directory.
pub open spec fn no_home_message() -> Seq<char> {
    "Could not find the home directory"@
}

/// The application's data directory under the user's home directory, or an
/// error when there is no home directory.
pub fn data_root(home_dir: Option<&str>, sep: char) -> (root: Result<String, String>)
    ensures
        home_dir is None ==> (root matches Err(e) && e@ == no_home_message()),
        home_dir matches Some(h) ==> (root matches Ok(r) && r@ == join_path(h@, "plexel/plexel"@, sep)),
{
    match home_dir {
        None => Err(String::from_str("Could not find the home directory")),
        Some(h) => Ok(join(h, "plexel/plexel", sep)),
    }
}

/// The SQLite database file inside the data directory.
pub fn database_path(data_root: &str, sep: char) -> (path: String)
    ensures
        path@ == join_path(data_root@, "screen_memory.sqlite3"@, sep),
{
    join(data_root, "screen_memory.sqlite3", sep)
}

/// The directory for screenshots inside the data directory.
pub fn screenshots_dir(data_root: &str, sep: char) -> (path: String)
    ensures
        path@ == join_path(data_root@, "screenshots"@, sep),
{
    join(data_root, "screenshots", sep)
}

/// The name of the screenshot file taken at the time stamped `stamp`.
pub open spec fn screenshot_name(stamp: Seq<char>) -> Seq<char> {
    "screenshot_"@ + stamp + ".png"@
}

/// The file name for a screenshot taken at the time stamped `stamp`.
pub fn screenshot_file_name(stamp: &str) -> (name: String)
    ensures
        name@ == screenshot_name(stamp@),
{
    let mut name = String::from_str("screenshot_");
    name.append(stamp);
    name.append(".png");
    name
}

} // verus!
