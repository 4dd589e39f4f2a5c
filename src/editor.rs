//! Editor dispatch: which invocation opens a note, at a line where the
//! editor can jump to one.

use crate::items::views;
use crate::text::{after_last, base_name, chars_of, push_char};
use vstd::prelude::*;
use vstd::string::StringExecFns;

verus! {

/// The two ways of opening a file in an editor.
#[derive(Debug, Clone, Copy, PartialEq, Eq, Structural)]
pub enum EditorKind {
    /// Takes `+<line>` before the path and opens the file at that line.
    LineAddressable,
    /// Opens the file at its own default position.
    Generic,
}

/// An outside program to start, with its arguments.
#[derive(Debug)]
pub struct Invocation {
    pub program: String,
    pub args: Vec<String>,
}

/// The identity of an editor: its base command name, without directories.
pub open spec fn identity(editor: Seq<char>) -> Seq<char> {
    after_last(editor, '/')
}

/// The names of the editors known to take a line argument.
pub open spec fn is_line_editor_name(name: Seq<char>) -> bool {
    name == seq!['v', 'i', 'm']
}

/// How an editor is dispatched on.
pub open spec fn kind_spec(editor: Seq<char>) -> EditorKind {
    if is_line_editor_name(identity(editor)) {
        EditorKind::LineAddressable
    } else {
        EditorKind::Generic
    }
}

/// The arguments that open `path` with an editor of the given kind.
pub open spec fn args_spec(kind: EditorKind, path: Seq<char>, line_number: Seq<char>) -> Seq<
    Seq<char>,
> {
    match kind {
        EditorKind::LineAddressable => seq![seq!['+'] + line_number, path],
        EditorKind::Generic => seq![path],
    }
}

/// The base command name of an editor given by name or by path.
pub fn editor_identity(editor: &str) -> (r: String)
    ensures
        r@ == identity(editor@),
{
    base_name(editor)
}

/// Whether an editor, given by name or by path, takes a line argument.
pub fn editor_kind(editor: &str) -> (r: EditorKind)
    ensures
        r == kind_spec(editor@),
{
    let id = editor_identity(editor);
    let cs = chars_of(id.as_str());
    if cs.len() == 3 && cs[0] == 'v' && cs[1] == 'i' && cs[2] == 'm' {
        assert(cs@ =~= seq!['v', 'i', 'm']);
        EditorKind::LineAddressable
    } else {
        EditorKind::Generic
    }
}

/// The invocation that opens `path` in `editor`: `<editor> +<line> <path>`
/// for an editor that takes a line argument, `<editor> <path>` for any
/// other.
pub fn editor_invocation(editor: &str, path: &str, line_number: &str) -> (r: Invocation)
    ensures
        r.program@ == editor@,
        views(r.args@) == args_spec(kind_spec(editor@), path@, line_number@),
{
    let kind = editor_kind(editor);
    let mut args: Vec<String> = Vec::new();
    if kind == EditorKind::LineAddressable {
        let mut jump = String::new();
        push_char(&mut jump, '+');
        jump.append(line_number);
        args.push(jump);
    }
    args.push(String::from_str(path));
    proof {
        assert(views(args@) =~= args_spec(kind, path@, line_number@));
    }
    Invocation { program: String::from_str(editor), args }
}

} // verus!
