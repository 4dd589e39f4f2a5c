//! Previews: the command that shows a match in context while selecting, and
//! the confirmation line printed after a note was created or edited.

use crate::record::{decimal, decimal_string, is_numeral, resolve, split_item, value_of};
use crate::text::{after_last, base_name};
use vstd::prelude::*;
use vstd::string::StringExecFns;

verus! {

/// Lines of leading context shown above a match.
pub const PREVIEW_CONTEXT: u64 = 5;

/// Most lines a preview shows.
pub const PREVIEW_LINES: u64 = 10;

/// The first line that the preview of a match at `line` asks for: five
/// lines above it, but never below zero.
pub open spec fn start_spec(line: nat) -> nat {
    if line >= PREVIEW_CONTEXT {
        (line - PREVIEW_CONTEXT) as nat
    } else {
        0
    }
}

/// The command that previews the match at `line` of `path`: the pager shows
/// the file from the start line on, with the matched line highlighted, and
/// the output is cut to ten lines.
pub open spec fn command_spec(path: Seq<char>, line: nat) -> Seq<char> {
    "bat --style=numbers --color=always --highlight-line "@ + decimal(line) + " --line-range "@
        + decimal(start_spec(line)) + ": "@ + path + " | head -n"@ + decimal(
        PREVIEW_LINES as nat,
    )
}

/// The first line asked for by the preview of a match at `line`.
pub fn preview_start(line: u64) -> (r: u64)
    ensures
        r == start_spec(line as nat),
{
    if line >= PREVIEW_CONTEXT {
        line - PREVIEW_CONTEXT
    } else {
        0
    }
}

/// The command that previews the match at `line` of `path`.
pub fn preview_command(path: &str, line: u64) -> (r: String)
    ensures
        r@ == command_spec(path@, line as nat),
{
    let mut r = String::from_str("bat --style=numbers --color=always --highlight-line ");
    r.append(decimal_string(line).as_str());
    r.append(" --line-range ");
    r.append(decimal_string(preview_start(line)).as_str());
    r.append(": ");
    r.append(path);
    r.append(" | head -n");
    r.append(decimal_string(PREVIEW_LINES).as_str());
    r
}

/// The preview command for a selection item: `None` where the item does not
/// split into path, line number and content, or its line number is not a
/// number that fits a `u64`.
pub fn item_preview_command(item: &str) -> (r: Option<String>)
    ensures
        r is Some <==> (split_item(item@) matches Some(t) && is_numeral(t.1) && value_of(t.1)
            <= u64::MAX),
        r matches Some(cmd) ==> cmd@ == command_spec(
            split_item(item@)->Some_0.0,
            value_of(split_item(item@)->Some_0.1),
        ),
{
    match resolve(item) {
        Ok(m) => match m.line_value() {
            Some(line) => Some(preview_command(m.path.as_str(), line)),
            None => None,
        },
        Err(_) => None,
    }
}

/// What was done to a note before its preview is printed.
#[derive(Debug, Clone, Copy, PartialEq, Eq, Structural)]
pub enum Action {
    Created,
    Edited,
}

/// The word that names an action in a preview.
pub open spec fn label_spec(action: Action) -> Seq<char> {
    match action {
        Action::Created => "Created"@,
        Action::Edited => "Edited"@,
    }
}

impl Action {
    /// The word that names this action in a preview.
    pub fn label(&self) -> (r: String)
        ensures
            r@ == label_spec(*self),
    {
        match self {
            Action::Created => String::from_str("Created"),
            Action::Edited => String::from_str("Edited"),
        }
    }
}

/// The parts of a confirmation line: the action, the note's base file name
/// and the first line of the note.
#[derive(Debug)]
pub struct Preview {
    pub action: String,
    pub name: String,
    pub first_line: String,
}

/// A confirmation line without styling: `<action> <name> [<first line>]`.
pub open spec fn plain_spec(action: Seq<char>, name: Seq<char>, first_line: Seq<char>) -> Seq<
    char,
> {
    action + " "@ + name + " ["@ + first_line + "]"@
}

impl Preview {
    /// The confirmation line without styling.
    pub fn plain(&self) -> (r: String)
        ensures
            r@ == plain_spec(self.action@, self.name@, self.first_line@),
    {
        let mut r = self.action.clone();
        r.append(" ");
        r.append(self.name.as_str());
        r.append(" [");
        r.append(self.first_line.as_str());
        r.append("]");
        r
    }
}

/// The confirmation for a note at `path` whose first line is `first_line`:
/// none where the note has no line at all.
pub fn preview(action: Action, path: &str, first_line: Option<&str>) -> (r: Option<Preview>)
    ensures
        r is Some <==> first_line is Some,
        r matches Some(p) ==> p.action@ == label_spec(action) && p.name@ == after_last(path@, '/')
            && p.first_line@ == first_line->Some_0@,
{
    match first_line {
        None => None,
        Some(line) => Some(
            Preview {
                action: action.label(),
                name: base_name(path),
                first_line: String::from_str(line),
            },
        ),
    }
}

} // verus!
