//! Small answers of the user-interface commands.

use vstd::prelude::*;
use vstd::string::StringExecFns;

verus! {

/// The greeting for `name`.
pub open spec fn greeting(name: Seq<char>) -> Seq<char> {
    "Hello, "@ + name + "! You've been greeted from Rust!"@
}

/// Greets `name`.
pub fn greet(name: &str) -> (g: String)
    ensures
        g@ == greeting(name@),
{
    let mut g = String::from_str("Hello, ");
    g.append(name);
    g.append("! You've been greeted from Rust!");
    g
}

/// How many records are listed when the caller gives no limit.
pub const DEFAULT_RECENT_LIMIT: u32 = 5;

/// The number of recent records to list: the requested limit, or 5.
pub fn recent_limit(limit: Option<u32>) -> (n: i64)
    ensures
        n == match limit {
            Some(l) => l as int,
            None => DEFAULT_RECENT_LIMIT as int,
        },
{
    match limit {
        Some(l) => l as i64,
        None => DEFAULT_RECENT_LIMIT as i64,
    }
}

} // verus!
