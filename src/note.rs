//! Names of new notes.

use vstd::prelude::*;
use vstd::string::StringExecFns;

verus! {

/// The file name of a note created at `stamp`, with an optional title:
/// `<stamp>-<title>.md`, or `<stamp>.md` without one.
pub open spec fn note_name_spec(stamp: Seq<char>, title: Option<&str>) -> Seq<char> {
    match title {
        Some(t) => stamp + "-"@ + t@ + ".md"@,
        None => stamp + ".md"@,
    }
}

/// The file name of a note created at `stamp`, with an optional title.
pub fn note_file_name(stamp: &str, title: Option<&str>) -> (r: String)
    ensures
        r@ == note_name_spec(stamp@, title),
{
    let mut r = String::from_str(stamp);
    match title {
        Some(t) => {
            r.append("-");
            r.append(t);
        },
        None => {},
    }
    r.append(".md");
    r
}

} // verus!
