//! The item stream: the search engine's captured output turned into the
//! selectable items handed to the interactive selector.

use crate::text::{chars_of, string_of};
use vstd::prelude::*;

verus! {

/// Whitespace that trimming removes from either end of a line: the
/// characters with the Unicode White_Space property.
pub open spec fn is_space(c: char) -> bool {
    ('\u{9}' <= c && c <= '\u{D}') || c == '\u{20}' || c == '\u{85}' || c == '\u{A0}'
        || c == '\u{1680}' || ('\u{2000}' <= c && c <= '\u{200A}') || c == '\u{2028}'
        || c == '\u{2029}' || c == '\u{202F}' || c == '\u{205F}' || c == '\u{3000}'
}

/// A line that is empty once trimmed.
pub open spec fn is_blank(line: Seq<char>) -> bool {
    forall|j: int| 0 <= j < line.len() ==> is_space(#[trigger] line[j])
}

/// The pieces of `s` between newline characters; a text without newlines is
/// one piece, and a text ending in a newline ends in an empty piece.
pub open spec fn segments(s: Seq<char>) -> Seq<Seq<char>>
    decreases s.len(),
{
    if s.len() == 0 {
        seq![Seq::empty()]
    } else {
        let init = segments(s.drop_last());
        if s.last() == '\n' {
            init.push(Seq::empty())
        } else {
            init.update(init.len() - 1, init.last().push(s.last()))
        }
    }
}

/// The lines of `lines` that are not blank, in their order.
pub open spec fn selectable(lines: Seq<Seq<char>>) -> Seq<Seq<char>>
    decreases lines.len(),
{
    if lines.len() == 0 {
        Seq::empty()
    } else {
        let rest = selectable(lines.drop_last());
        if is_blank(lines.last()) {
            rest
        } else {
            rest.push(lines.last())
        }
    }
}

/// A line without the carriage return of a CRLF line ending.
pub open spec fn strip_cr(line: Seq<char>) -> Seq<char> {
    if line.len() > 0 && line.last() == '\r' {
        line.drop_last()
    } else {
        line
    }
}

/// The items of a captured output: its non-blank lines, in order. A line
/// ended by `\r\n` loses the carriage return; a last line without a newline
/// is kept verbatim.
pub open spec fn items_spec(output: Seq<char>) -> Seq<Seq<char>> {
    let seg = segments(output);
    let ended = selectable(seg.drop_last()).map_values(|l: Seq<char>| strip_cr(l));
    if is_blank(seg.last()) {
        ended
    } else {
        ended.push(seg.last())
    }
}

/// The views of a sequence of strings.
pub open spec fn views(v: Seq<String>) -> Seq<Seq<char>> {
    v.map_values(|x: String| x@)
}

/// `lines`, each followed by a newline, as the search engine emits them.
pub open spec fn joined(lines: Seq<Seq<char>>) -> Seq<char>
    decreases lines.len(),
{
    if lines.len() == 0 {
        Seq::empty()
    } else {
        joined(lines.drop_last()) + lines.last().push('\n')
    }
}

proof fn lemma_segments_len(s: Seq<char>)
    ensures
        segments(s).len() >= 1,
    decreases s.len(),
{
    if s.len() > 0 {
        lemma_segments_len(s.drop_last());
    }
}

/// Appending text without newlines extends the last piece.
proof fn lemma_segments_extend(a: Seq<char>, t: Seq<char>)
    requires
        forall|j: int| 0 <= j < t.len() ==> t[j] != '\n',
    ensures
        segments(a + t) == segments(a).drop_last().push(segments(a).last() + t),
    decreases t.len(),
{
    lemma_segments_len(a);
    if t.len() == 0 {
        assert(a + t =~= a);
        assert(segments(a).last() + t =~= segments(a).last());
        assert(segments(a).drop_last().push(segments(a).last()) =~= segments(a));
    } else {
        let t0 = t.drop_last();
        lemma_segments_extend(a, t0);
        assert((a + t).drop_last() =~= a + t0);
        assert((a + t).last() == t.last());
        assert(segments(a).last() + t0 + seq![t.last()] =~= segments(a).last() + t);
        assert((segments(a).last() + t0).push(t.last()) =~= segments(a).last() + t);
        let sa = segments(a + t0);
        assert(sa.update(sa.len() - 1, sa.last().push(t.last())) =~= segments(a).drop_last().push(
            segments(a).last() + t,
        ));
    }
}

/// Text built from newline-free lines splits back into those lines and a
/// final empty piece.
proof fn lemma_segments_joined(lines: Seq<Seq<char>>)
    requires
        forall|i: int, j: int|
            0 <= i < lines.len() && 0 <= j < lines[i].len() ==> lines[i][j] != '\n',
    ensures
        segments(joined(lines)) == lines.push(Seq::empty()),
    decreases lines.len(),
{
    if lines.len() == 0 {
        assert(segments(Seq::<char>::empty()) =~= seq![Seq::<char>::empty()]);
        assert(lines.push(Seq::empty()) =~= seq![Seq::<char>::empty()]);
    } else {
        let init = lines.drop_last();
        let l = lines.last();
        assert forall|i: int, j: int| 0 <= i < init.len() && 0 <= j < init[i].len() implies init[i][j]
            != '\n' by {
            assert(init[i] == lines[i]);
        }
        lemma_segments_joined(init);
        assert forall|j: int| 0 <= j < l.len() implies l[j] != '\n' by {
            assert(lines[lines.len() - 1] == l);
        }
        let a = joined(init);
        lemma_segments_extend(a, l);
        let s = joined(lines);
        assert(s =~= (a + l).push('\n'));
        assert(s.drop_last() =~= a + l);
        assert(Seq::<char>::empty() + l =~= l);
        assert(init.push(Seq::empty()).drop_last() =~= init);
        assert(init.push(l) =~= lines);
    }
}

/// Search output of any number of lines gives one item per non-blank line,
/// in the order of the lines: so exactly the lines themselves when none is
/// blank or ends in a carriage return, and nothing for no lines.
pub proof fn law_items_of_lines(lines: Seq<Seq<char>>)
    requires
        forall|i: int, j: int|
            0 <= i < lines.len() && 0 <= j < lines[i].len() ==> lines[i][j] != '\n',
    ensures
        items_spec(joined(lines)) == selectable(lines).map_values(|l: Seq<char>| strip_cr(l)),
        (forall|i: int|
            0 <= i < lines.len() ==> !is_blank(#[trigger] lines[i]) && strip_cr(lines[i])
                == lines[i]) ==> items_spec(joined(lines)) == lines,
        lines.len() == 0 ==> items_spec(joined(lines)).len() == 0,
{
    lemma_segments_joined(lines);
    let e = Seq::<char>::empty();
    assert(lines.push(e).drop_last() =~= lines);
    assert(lines.push(e).last() == e);
    assert(is_blank(e));
    if forall|i: int|
        0 <= i < lines.len() ==> !is_blank(#[trigger] lines[i]) && strip_cr(lines[i]) == lines[i] {
        lemma_selectable_all(lines);
        assert(lines.map_values(|l: Seq<char>| strip_cr(l)) =~= lines);
    }
}

proof fn lemma_selectable_all(lines: Seq<Seq<char>>)
    requires
        forall|i: int| 0 <= i < lines.len() ==> !is_blank(#[trigger] lines[i]),
    ensures
        selectable(lines) == lines,
    decreases lines.len(),
{
    if lines.len() > 0 {
        let init = lines.drop_last();
        assert forall|i: int| 0 <= i < init.len() implies !is_blank(#[trigger] init[i]) by {
            assert(init[i] == lines[i]);
        }
        lemma_selectable_all(init);
        assert(!is_blank(lines[lines.len() - 1]));
        assert(init.push(lines.last()) =~= lines);
    }
}

/// Whether `c` is removed by trimming.
pub fn space(c: char) -> (r: bool)
    ensures
        r == is_space(c),
{
    ('\u{9}' <= c && c <= '\u{D}') || c == '\u{20}' || c == '\u{85}' || c == '\u{A0}'
        || c == '\u{1680}' || ('\u{2000}' <= c && c <= '\u{200A}') || c == '\u{2028}'
        || c == '\u{2029}' || c == '\u{202F}' || c == '\u{205F}' || c == '\u{3000}'
}

/// The selectable items of the search engine's captured output: one per
/// line, in the order of the lines, leaving out the lines that are empty
/// once trimmed. Each item is its line verbatim, without the line ending
/// (`\n` or `\r\n`); a last line without a newline is taken whole.
pub fn selection_items(output: &str) -> (r: Vec<String>)
    ensures
        views(r@) == items_spec(output@),
{
    let cs = chars_of(output);
    let n = cs.len();
    let mut r: Vec<String> = Vec::new();
    let mut start: usize = 0;
    let mut blank = true;
    let ghost mut done: Seq<Seq<char>> = Seq::empty();
    let mut i: usize = 0;
    assert(cs@.subrange(0, 0) =~= Seq::<char>::empty());
    while i < n
        invariant
            n == cs@.len(),
            cs@ == output@,
            start <= i <= n,
            segments(cs@.subrange(0, i as int)) == done.push(cs@.subrange(start as int, i as int)),
            views(r@) == selectable(done).map_values(|l: Seq<char>| strip_cr(l)),
            blank == is_blank(cs@.subrange(start as int, i as int)),
        decreases n - i,
    {
        let c = cs[i];
        let ghost cur = cs@.subrange(start as int, i as int);
        let ghost prefix = cs@.subrange(0, i as int + 1);
        assert(prefix.drop_last() =~= cs@.subrange(0, i as int));
        assert(prefix.last() == c);
        if c == '\n' {
            if !blank {
                let end = if i > start && cs[i - 1] == '\r' { i - 1 } else { i };
                assert(cs@.subrange(start as int, end as int) =~= strip_cr(cur));
                let item = string_of(&cs, start, end);
                let ghost before = r@;
                r.push(item);
                assert(views(r@) =~= views(before).push(item@));
            }
            proof {
                let nd = done.push(cur);
                assert(nd.drop_last() =~= done);
                assert(selectable(done).push(cur).map_values(|l: Seq<char>| strip_cr(l)) =~= selectable(
                    done,
                ).map_values(|l: Seq<char>| strip_cr(l)).push(strip_cr(cur)));
                done = nd;
            }
            start = i + 1;
            blank = true;
            assert(cs@.subrange(start as int, start as int) =~= Seq::<char>::empty());
        } else {
            let ghost was_blank = blank;
            blank = blank && space(c);
            let ghost next = cs@.subrange(start as int, i as int + 1);
            assert(next =~= cur.push(c));
            assert(blank ==> is_blank(next)) by {
                if blank {
                    assert forall|j: int| 0 <= j < next.len() implies is_space(#[trigger] next[j]) by {
                        if j < cur.len() {
                            assert(next[j] == cur[j]);
                        }
                    }
                }
            }
            assert(is_blank(next) ==> blank) by {
                if is_blank(next) {
                    assert(is_space(next[next.len() - 1]));
                    assert forall|j: int| 0 <= j < cur.len() implies is_space(#[trigger] cur[j]) by {
                        assert(next[j] == cur[j]);
                    }
                }
            }
        }
        i = i + 1;
    }
    assert(cs@.subrange(0, n as int) =~= cs@);
    if !blank {
        let item = string_of(&cs, start, n);
        let ghost before = r@;
        r.push(item);
        assert(views(r@) =~= views(before).push(item@));
    }
    proof {
        let cur = cs@.subrange(start as int, n as int);
        let all = done.push(cur);
        assert(all.drop_last() =~= done);
    }
    r
}

} // verus!
