use nt::editor::{editor_identity, editor_invocation, editor_kind, EditorKind};
use nt::error::NtError;
use nt::items::selection_items;
use nt::note::note_file_name;
use nt::preview::{item_preview_command, preview, preview_command, preview_start, Action};
use nt::record::{decimal_string, encode_item, parse_line_number, resolve};
use nt::search::{search_args, search_outcome};
use nt::text::{base_name, chars_of, string_of};

#[test]
fn items_keep_order_and_drop_blank_lines() {
    let out = "a.md:1:first\n\n   \t\nb.md:2:second\nc.md:3:third\n";
    let items = selection_items(out);
    assert_eq!(items, vec!["a.md:1:first", "b.md:2:second", "c.md:3:third"]);
}

#[test]
fn items_of_empty_output() {
    assert!(selection_items("").is_empty());
    assert!(selection_items("\n\n").is_empty());
}

#[test]
fn items_last_line_without_newline() {
    let items = selection_items("x:1:a\ny:2:b");
    assert_eq!(items, vec!["x:1:a", "y:2:b"]);
}

#[test]
fn items_keep_lines_verbatim() {
    let items = selection_items("  x:1: padded  \r\n");
    assert_eq!(items, vec!["  x:1: padded  "]);
}

#[test]
fn items_count_matches_lines() {
    let mut out = String::new();
    for i in 1..=50u64 {
        out.push_str(&format!("note{}.md:{}:line {}\n", i, i, i));
    }
    let items = selection_items(&out);
    assert_eq!(items.len(), 50);
    assert_eq!(items[0], "note1.md:1:line 1");
    assert_eq!(items[49], "note50.md:50:line 50");
}

#[test]
fn encode_then_resolve_round_trip() {
    let item = encode_item("/notes/a.md", 42, "time: 10:30 ok");
    assert_eq!(item, "/notes/a.md:42:time: 10:30 ok");
    let m = resolve(&item).unwrap();
    assert_eq!(m.path, "/notes/a.md");
    assert_eq!(m.line_number, "42");
    assert_eq!(m.content, "time: 10:30 ok");
    assert_eq!(m.line_value(), Some(42));
}

#[test]
fn encode_empty_content() {
    let item = encode_item("p", 7, "");
    assert_eq!(item, "p:7:");
    let m = resolve(&item).unwrap();
    assert_eq!(m.content, "");
    assert_eq!(m.line_value(), Some(7));
}

#[test]
fn resolve_fails_without_two_delimiters() {
    assert_eq!(resolve("onlypath").unwrap_err(), NtError::Parse);
    assert_eq!(resolve("path:5").unwrap_err(), NtError::Parse);
    assert_eq!(resolve("").unwrap_err(), NtError::Parse);
}

#[test]
fn resolve_accepts_trailing_empty_content() {
    let m = resolve("path:5:").unwrap();
    assert_eq!(m.path, "path");
    assert_eq!(m.line_number, "5");
    assert_eq!(m.content, "");
}

#[test]
fn resolve_does_not_check_the_line_number() {
    let m = resolve("p:abc:c").unwrap();
    assert_eq!(m.line_number, "abc");
    assert_eq!(m.line_value(), None);
}

#[test]
fn line_numbers_parse() {
    assert_eq!(parse_line_number("123"), Some(123));
    assert_eq!(parse_line_number("0"), Some(0));
    assert_eq!(parse_line_number(""), None);
    assert_eq!(parse_line_number("12a"), None);
    assert_eq!(parse_line_number("-1"), None);
    assert_eq!(parse_line_number("18446744073709551615"), Some(u64::MAX));
    assert_eq!(parse_line_number("18446744073709551616"), None);
}

#[test]
fn decimal_strings() {
    assert_eq!(decimal_string(0), "0");
    assert_eq!(decimal_string(9), "9");
    assert_eq!(decimal_string(10), "10");
    assert_eq!(decimal_string(1234), "1234");
    assert_eq!(decimal_string(u64::MAX), "18446744073709551615");
}

#[test]
fn vim_gets_the_line_argument() {
    let inv = editor_invocation("vim", "/notes/a.md", "12");
    assert_eq!(inv.program, "vim");
    assert_eq!(inv.args, vec!["+12", "/notes/a.md"]);
}

#[test]
fn vim_by_path_gets_the_line_argument() {
    let inv = editor_invocation("/usr/bin/vim", "/notes/a.md", "3");
    assert_eq!(inv.program, "/usr/bin/vim");
    assert_eq!(inv.args, vec!["+3", "/notes/a.md"]);
}

#[test]
fn other_editors_get_no_line_argument() {
    for ed in ["nano", "code", "/usr/bin/nvim", "vi", "vimx", "gvim"] {
        let inv = editor_invocation(ed, "/notes/a.md", "12");
        assert_eq!(inv.program, ed);
        assert_eq!(inv.args, vec!["/notes/a.md"]);
        assert_eq!(editor_kind(ed), EditorKind::Generic);
    }
}

#[test]
fn editor_identities() {
    assert_eq!(editor_identity("/usr/local/bin/vim"), "vim");
    assert_eq!(editor_identity("nano"), "nano");
    assert_eq!(editor_kind("/usr/local/bin/vim"), EditorKind::LineAddressable);
}

#[test]
fn preview_start_lines() {
    assert_eq!(preview_start(100), 95);
    assert_eq!(preview_start(2), 0);
    assert_eq!(preview_start(5), 0);
    assert_eq!(preview_start(6), 1);
    assert_eq!(preview_start(0), 0);
}

#[test]
fn preview_commands() {
    assert_eq!(
        preview_command("/notes/a.md", 100),
        "bat --style=numbers --color=always --highlight-line 100 --line-range 95: /notes/a.md | head -n10"
    );
    assert_eq!(
        preview_command("/notes/a.md", 2),
        "bat --style=numbers --color=always --highlight-line 2 --line-range 0: /notes/a.md | head -n10"
    );
}

#[test]
fn item_preview_commands() {
    assert_eq!(
        item_preview_command("/notes/a.md:100:some: text").unwrap(),
        "bat --style=numbers --color=always --highlight-line 100 --line-range 95: /notes/a.md | head -n10"
    );
    assert_eq!(
        item_preview_command("/notes/a.md:2:x").unwrap(),
        "bat --style=numbers --color=always --highlight-line 2 --line-range 0: /notes/a.md | head -n10"
    );
    assert!(item_preview_command("/notes/a.md:5").is_none());
    assert!(item_preview_command("/notes/a.md:five:x").is_none());
}

#[test]
fn confirmation_lines() {
    let p = preview(Action::Edited, "/notes/20240101-a.md", Some("# Shopping")).unwrap();
    assert_eq!(p.action, "Edited");
    assert_eq!(p.name, "20240101-a.md");
    assert_eq!(p.first_line, "# Shopping");
    assert_eq!(p.plain(), "Edited 20240101-a.md [# Shopping]");
    let c = preview(Action::Created, "x.md", Some("")).unwrap();
    assert_eq!(c.plain(), "Created x.md []");
}

#[test]
fn no_confirmation_for_empty_note() {
    assert!(preview(Action::Created, "/notes/x.md", None).is_none());
}

#[test]
fn action_labels() {
    assert_eq!(Action::Created.label(), "Created");
    assert_eq!(Action::Edited.label(), "Edited");
}

#[test]
fn search_arguments() {
    assert_eq!(
        search_args("milk", "/home/u/.config/nt"),
        vec!["--line-number", "--no-heading", "--fixed-strings", "milk", "/home/u/.config/nt"]
    );
}

#[test]
fn search_outcomes() {
    let found = search_outcome(Some(0), "a.md:1:x\n").unwrap();
    assert_eq!(found, vec!["a.md:1:x"]);
    assert!(search_outcome(Some(1), "").unwrap().is_empty());
    assert_eq!(
        search_outcome(Some(2), "").unwrap_err(),
        NtError::ExternalTool { tool: "rg".to_string() }
    );
    assert_eq!(
        search_outcome(None, "a.md:1:x\n").unwrap_err(),
        NtError::ExternalTool { tool: "rg".to_string() }
    );
}

#[test]
fn note_names() {
    assert_eq!(note_file_name("20240101120000", Some("groceries")), "20240101120000-groceries.md");
    assert_eq!(note_file_name("20240101120000", None), "20240101120000.md");
}

#[test]
fn text_helpers() {
    let cs = chars_of("héllo:wörld");
    assert_eq!(cs.len(), 11);
    assert_eq!(string_of(&cs, 6, 11), "wörld");
    assert_eq!(string_of(&cs, 0, 0), "");
    assert_eq!(base_name("a/b/c.md"), "c.md");
    assert_eq!(base_name("c.md"), "c.md");
    assert_eq!(base_name("dir/"), "");
}

#[test]
fn search_select_edit_scenario() {
    let path = "/home/u/.config/nt/20240101-a.md";
    let out = format!("{}:3:TODO buy milk\n", path);
    let items = search_outcome(Some(0), &out).unwrap();
    assert_eq!(items, vec![encode_item(path, 3, "TODO buy milk")]);
    let m = resolve(&items[0]).unwrap();
    assert_eq!(m.path, path);
    assert_eq!(m.line_number, "3");
    assert_eq!(m.content, "TODO buy milk");
    let inv = editor_invocation("vim", &m.path, &m.line_number);
    assert_eq!(inv.program, "vim");
    assert_eq!(inv.args, vec!["+3".to_string(), path.to_string()]);
    let p = preview(Action::Edited, &m.path, Some("# Groceries")).unwrap();
    assert_eq!(p.plain(), "Edited 20240101-a.md [# Groceries]");
}

#[test]
fn items_drop_crlf_endings_only() {
    let items = selection_items("a:1:x\r\n\r\ny:2:b\rc\r");
    assert_eq!(items, vec!["a:1:x", "y:2:b\rc\r"]);
}

#[test]
fn items_drop_unicode_blank_lines() {
    let items = selection_items("\u{3000}\n\u{a0}\u{2009}\n\u{85}\na:1:x\u{3000}\n\u{2028}");
    assert_eq!(items, vec!["a:1:x\u{3000}"]);
}

#[test]
fn items_last_line_keeps_carriage_return() {
    assert_eq!(selection_items("a:1:x\r"), vec!["a:1:x\r"]);
    assert_eq!(selection_items("a:1:x\r\n"), vec!["a:1:x"]);
}
