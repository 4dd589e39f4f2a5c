//! Match records and their textual form, the selection item
//! `path:line_number:content`.

use crate::error::NtError;
use crate::text::{chars_of, push_char, string_of};
use vstd::string::StringExecFns;
use vstd::prelude::*;

verus! {

/// The character that separates the fields of a selection item.
pub const DELIM: char = ':';

/// One located occurrence of a query: file path, line number (as text, as
/// the search engine wrote it) and the line's content.
#[derive(Debug)]
pub struct Match {
    pub path: String,
    pub line_number: String,
    pub content: String,
}

/// The character of decimal digit `d` (below ten).
pub open spec fn digit_char(d: nat) -> char {
    ((d + 48) as u8) as char
}

/// Whether `c` is a decimal digit.
pub open spec fn is_digit(c: char) -> bool {
    '0' <= c <= '9'
}

/// The decimal digits of `n`, most significant first, without leading zeros.
pub open spec fn decimal(n: nat) -> Seq<char>
    decreases n,
{
    if n < 10 {
        seq![digit_char(n)]
    } else {
        decimal(n / 10).push(digit_char(n % 10))
    }
}

/// The number that a string of decimal digits denotes.
pub open spec fn value_of(s: Seq<char>) -> nat
    decreases s.len(),
{
    if s.len() == 0 {
        0
    } else {
        value_of(s.drop_last()) * 10 + (s.last() as nat - 48) as nat
    }
}

/// Whether `s` is a non-empty string of decimal digits.
pub open spec fn is_numeral(s: Seq<char>) -> bool {
    s.len() > 0 && forall|j: int| 0 <= j < s.len() ==> is_digit(#[trigger] s[j])
}

/// Whether `c` does not occur in `s`.
pub open spec fn free_of(s: Seq<char>, c: char) -> bool {
    forall|j: int| 0 <= j < s.len() ==> #[trigger] s[j] != c
}

/// The selection item that encodes a match.
pub open spec fn encoded(path: Seq<char>, line_number: nat, content: Seq<char>) -> Seq<char> {
    path + seq![DELIM] + decimal(line_number) + seq![DELIM] + content
}

/// The first position at or after `from` that holds `c`, or -1.
pub open spec fn find(s: Seq<char>, c: char, from: int) -> int
    decreases s.len() - from,
{
    if from < 0 || from >= s.len() {
        -1
    } else if s[from] == c {
        from
    } else {
        find(s, c, from + 1)
    }
}

/// How many positions at or after `from` hold `c`.
pub open spec fn count_from(s: Seq<char>, c: char, from: int) -> nat
    decreases s.len() - from,
{
    if from < 0 || from >= s.len() {
        0
    } else {
        (if s[from] == c { 1nat } else { 0nat }) + count_from(s, c, from + 1)
    }
}

/// A selection item split at its first two delimiters into path, line
/// number and content (the rest, verbatim), or `None` where it has fewer
/// than two.
pub open spec fn split_item(s: Seq<char>) -> Option<(Seq<char>, Seq<char>, Seq<char>)> {
    let p = find(s, DELIM, 0);
    let q = find(s, DELIM, p + 1);
    if p < 0 || q < 0 {
        None
    } else {
        Some((s.subrange(0, p), s.subrange(p + 1, q), s.subrange(q + 1, s.len() as int)))
    }
}

proof fn lemma_find_bounds(s: Seq<char>, c: char, from: int)
    requires
        0 <= from,
    ensures
        find(s, c, from) == -1 || (from <= find(s, c, from) < s.len() && s[find(s, c, from)]
            == c),
        forall|j: int|
            from <= j < (if find(s, c, from) < 0 { s.len() as int } else { find(s, c, from) })
                ==> s[j] != c,
    decreases s.len() - from,
{
    if from < s.len() && s[from] != c {
        lemma_find_bounds(s, c, from + 1);
    }
}

proof fn lemma_find_count(s: Seq<char>, c: char, from: int)
    requires
        0 <= from,
    ensures
        find(s, c, from) < 0 <==> count_from(s, c, from) == 0,
        find(s, c, from) >= 0 ==> count_from(s, c, from) == 1 + count_from(
            s,
            c,
            find(s, c, from) + 1,
        ),
    decreases s.len() - from,
{
    if from < s.len() && s[from] != c {
        lemma_find_count(s, c, from + 1);
    }
}

/// Where no delimiter comes before `from`, the first one at or after it
/// is the first one of all.
proof fn lemma_find_skip(s: Seq<char>, c: char, from: int)
    requires
        0 <= from <= s.len(),
        forall|j: int| 0 <= j < from ==> s[j] != c,
    ensures
        find(s, c, 0) == find(s, c, from),
    decreases from,
{
    if from > 0 {
        lemma_find_skip(s, c, from - 1);
    }
}

/// An item splits into exactly two pieces of position information only
/// where it holds at least two delimiters.
proof fn lemma_split_count(s: Seq<char>)
    ensures
        split_item(s) is None <==> count_from(s, DELIM, 0) < 2,
{
    lemma_find_count(s, DELIM, 0);
    let p = find(s, DELIM, 0);
    if p >= 0 {
        lemma_find_bounds(s, DELIM, 0);
        lemma_find_count(s, DELIM, p + 1);
    }
}

/// The first position at or after `from` that holds the delimiter, or the
/// length where none does.
fn find_delim(cs: &Vec<char>, from: usize) -> (r: usize)
    requires
        from <= cs@.len(),
    ensures
        from <= r <= cs@.len(),
        r == cs@.len() <==> find(cs@, DELIM, from as int) < 0,
        r < cs@.len() ==> r == find(cs@, DELIM, from as int),
{
    let n = cs.len();
    let mut i: usize = from;
    while i < n && cs[i] != DELIM
        invariant
            from <= i <= n == cs@.len(),
            find(cs@, DELIM, from as int) == find(cs@, DELIM, i as int),
        decreases n - i,
    {
        i = i + 1;
    }
    i
}

/// Splits a selection item at its first two delimiters into path, line
/// number and content; the content keeps any further delimiters verbatim.
/// Fails with `NtError::Parse` exactly where the item holds fewer than two
/// delimiters.
pub fn resolve(item: &str) -> (r: Result<Match, NtError>)
    ensures
        r is Err <==> count_from(item@, DELIM, 0) < 2,
        match r {
            Ok(m) => split_item(item@) == Some((m.path@, m.line_number@, m.content@)),
            Err(e) => split_item(item@) is None && e == NtError::Parse,
        },
{
    proof {
        lemma_split_count(item@);
    }
    let cs = chars_of(item);
    let n = cs.len();
    let p = find_delim(&cs, 0);
    if p == n {
        return Err(NtError::Parse);
    }
    let q = find_delim(&cs, p + 1);
    if q == n {
        return Err(NtError::Parse);
    }
    let path = string_of(&cs, 0, p);
    let line_number = string_of(&cs, p + 1, q);
    let content = string_of(&cs, q + 1, n);
    Ok(Match { path, line_number, content })
}

/// The decimal digits of `n`.
pub fn decimal_string(n: u64) -> (r: String)
    ensures
        r@ == decimal(n as nat),
    decreases n,
{
    let d = (n % 10) as u8;
    let c = (d + 48) as char;
    if n < 10 {
        let mut r = String::new();
        push_char(&mut r, c);
        assert(r@ =~= seq![digit_char(n as nat)]);
        r
    } else {
        let mut r = decimal_string(n / 10);
        push_char(&mut r, c);
        r
    }
}

/// The selection item of a match: path, line number and content joined by
/// the delimiter.
pub fn encode_item(path: &str, line_number: u64, content: &str) -> (r: String)
    ensures
        r@ == encoded(path@, line_number as nat, content@),
{
    let mut r = String::from_str(path);
    push_char(&mut r, DELIM);
    let digits = decimal_string(line_number);
    r.append(digits.as_str());
    push_char(&mut r, DELIM);
    r.append(content);
    assert(r@ =~= encoded(path@, line_number as nat, content@));
    r
}

proof fn lemma_decimal_digits(n: nat)
    ensures
        is_numeral(decimal(n)),
        value_of(decimal(n)) == n,
    decreases n,
{
    if n >= 10 {
        lemma_decimal_digits(n / 10);
        let s = decimal(n);
        assert(s.drop_last() =~= decimal(n / 10));
        assert(digit_char(n % 10) as nat == n % 10 + 48);
        assert(s.last() == digit_char(n % 10));
        assert(value_of(s) == value_of(decimal(n / 10)) * 10 + n % 10);
        assert((n / 10) * 10 + n % 10 == n) by (nonlinear_arith);
        assert forall|j: int| 0 <= j < s.len() implies is_digit(#[trigger] s[j]) by {
            if j < s.len() - 1 {
                assert(s[j] == decimal(n / 10)[j]);
            }
        }
    } else {
        let s = decimal(n);
        assert(s.drop_last() =~= Seq::<char>::empty());
        assert(digit_char(n) as nat == n + 48);
        assert(s.last() == digit_char(n));
        assert(value_of(s) == value_of(Seq::<char>::empty()) * 10 + n);
    }
}

/// Decoding an encoded match gives back its path, its line number (whose
/// digits denote the number encoded) and its content, whatever delimiters
/// the content holds, provided the path holds none.
pub proof fn law_decode_encoded(path: Seq<char>, line_number: nat, content: Seq<char>)
    requires
        free_of(path, DELIM),
    ensures
        split_item(encoded(path, line_number, content)) == Some(
            (path, decimal(line_number), content),
        ),
        is_numeral(decimal(line_number)),
        value_of(decimal(line_number)) == line_number,
{
    lemma_decimal_digits(line_number);
    let s = encoded(path, line_number, content);
    let d = decimal(line_number);
    let p = path.len() as int;
    let q = p + 1 + d.len();
    assert forall|j: int| 0 <= j < p implies s[j] != DELIM by {
        assert(s[j] == path[j]);
    }
    assert(s[p] == DELIM);
    lemma_find_skip(s, DELIM, p);
    assert forall|j: int| p + 1 <= j < q implies s[j] != DELIM by {
        assert(s[j] == d[j - p - 1]);
        assert(is_digit(d[j - p - 1]));
    }
    assert(s[q] == DELIM);
    lemma_find_walk(s, DELIM, p + 1, q);
    assert(s.subrange(0, p) =~= path);
    assert(s.subrange(p + 1, q) =~= d);
    assert(s.subrange(q + 1, s.len() as int) =~= content);
}

proof fn lemma_find_walk(s: Seq<char>, c: char, from: int, to: int)
    requires
        0 <= from <= to < s.len(),
        s[to] == c,
        forall|j: int| from <= j < to ==> s[j] != c,
    ensures
        find(s, c, from) == to,
    decreases to - from,
{
    if from < to {
        lemma_find_walk(s, c, from + 1, to);
    }
}

proof fn lemma_value_grows(s: Seq<char>, i: int)
    requires
        0 <= i <= s.len(),
        forall|j: int| 0 <= j < s.len() ==> is_digit(#[trigger] s[j]),
    ensures
        value_of(s.subrange(0, i)) <= value_of(s),
    decreases s.len() - i,
{
    if i < s.len() {
        lemma_value_grows(s, i + 1);
        let t = s.subrange(0, i + 1);
        assert(t.drop_last() =~= s.subrange(0, i));
        assert(is_digit(s[i]));
    } else {
        assert(s.subrange(0, i) =~= s);
    }
}

/// The number that a line number's text denotes: `Some` exactly where the
/// text is a non-empty run of decimal digits whose value fits in a `u64`.
pub fn parse_line_number(text: &str) -> (r: Option<u64>)
    ensures
        r is Some <==> is_numeral(text@) && value_of(text@) <= u64::MAX,
        r matches Some(v) ==> v == value_of(text@),
{
    let cs = chars_of(text);
    let n = cs.len();
    if n == 0 {
        return None;
    }
    let mut acc: u64 = 0;
    let mut i: usize = 0;
    assert(cs@.subrange(0, 0) =~= Seq::<char>::empty());
    while i < n
        invariant
            i <= n == cs@.len(),
            cs@ == text@,
            forall|j: int| 0 <= j < i ==> is_digit(#[trigger] cs@[j]),
            acc == value_of(cs@.subrange(0, i as int)),
        decreases n - i,
    {
        let c = cs[i];
        if !('0' <= c && c <= '9') {
            return None;
        }
        let d = (c as u32 - 48) as u64;
        let ghost t = cs@.subrange(0, i as int + 1);
        assert(t.drop_last() =~= cs@.subrange(0, i as int));
        assert(t.last() == c);
        if acc > (u64::MAX - d) / 10 {
            proof {
                assert(value_of(t) > u64::MAX) by (nonlinear_arith)
                    requires
                        acc > (u64::MAX - d) / 10,
                        value_of(t) == acc * 10 + d,
                        d <= 9,
                ;
                if is_numeral(text@) {
                    lemma_value_grows(text@, i as int + 1);
                }
            }
            return None;
        }
        assert(acc * 10 + d <= u64::MAX) by (nonlinear_arith)
            requires
                acc <= (u64::MAX - d) / 10,
                d <= 9,
        ;
        acc = acc * 10 + d;
        i = i + 1;
    }
    assert(cs@.subrange(0, n as int) =~= cs@);
    Some(acc)
}

impl Match {
    /// The line number as a number, where its text is one that fits a `u64`.
    pub fn line_value(&self) -> (r: Option<u64>)
        ensures
            r is Some <==> is_numeral(self.line_number@) && value_of(self.line_number@)
                <= u64::MAX,
            r matches Some(v) ==> v == value_of(self.line_number@),
    {
        parse_line_number(self.line_number.as_str())
    }
}

} // verus!
