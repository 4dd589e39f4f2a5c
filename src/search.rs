//! The search delegate's side of the pipeline: the arguments handed to the
//! search engine and what its exit status means.

use crate::error::NtError;
use crate::items::{items_spec, selection_items, views};
use vstd::prelude::*;
use vstd::string::StringExecFns;

verus! {

/// The search engine's exit status when it found matches.
pub const FOUND: i32 = 0;

/// The search engine's exit status when it found no match.
pub const NOT_FOUND: i32 = 1;

/// The arguments that have the search engine look for `needle` as a fixed
/// string under `root`, one `path:line:content` line per match.
pub open spec fn search_args_spec(needle: Seq<char>, root: Seq<char>) -> Seq<Seq<char>> {
    seq!["--line-number"@, "--no-heading"@, "--fixed-strings"@, needle, root]
}

/// The name of the search engine's program.
pub open spec fn engine_spec() -> Seq<char> {
    "rg"@
}

/// The name of the search engine's program.
pub fn search_engine() -> (r: String)
    ensures
        r@ == engine_spec(),
{
    String::from_str("rg")
}

/// The arguments of a search for `needle` under `root`.
pub fn search_args(needle: &str, root: &str) -> (r: Vec<String>)
    ensures
        views(r@) == search_args_spec(needle@, root@),
{
    let mut r: Vec<String> = Vec::new();
    r.push(String::from_str("--line-number"));
    r.push(String::from_str("--no-heading"));
    r.push(String::from_str("--fixed-strings"));
    r.push(String::from_str(needle));
    r.push(String::from_str(root));
    assert(views(r@) =~= search_args_spec(needle@, root@));
    r
}

/// The items of a finished search, from its exit status (`None` where the
/// process was ended by a signal) and its captured standard output: the
/// output's items where it found matches, none where it found no match, and
/// an error naming the search engine on any other status.
pub fn search_outcome(status: Option<i32>, output: &str) -> (r: Result<Vec<String>, NtError>)
    ensures
        status == Some(FOUND) ==> (r matches Ok(v) && views(v@) == items_spec(output@)),
        status == Some(NOT_FOUND) ==> (r matches Ok(v) && v@.len() == 0),
        status != Some(FOUND) && status != Some(NOT_FOUND) ==> (r matches Err(
            NtError::ExternalTool { tool },
        ) && tool@ == engine_spec()),
{
    match status {
        Some(code) => {
            if code == FOUND {
                Ok(selection_items(output))
            } else if code == NOT_FOUND {
                Ok(Vec::new())
            } else {
                Err(NtError::ExternalTool { tool: search_engine() })
            }
        },
        None => Err(NtError::ExternalTool { tool: search_engine() }),
    }
}

} // verus!
