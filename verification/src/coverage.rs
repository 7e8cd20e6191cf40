//! A census of this crate's own conversion code, read off its source text.
//!
//! Every `impl TryFrom<A> for B` / `impl From<A> for B` line is a directed
//! conversion edge `A -> B`. Two edges whose canonical names are each
//! other's reverse form a bidirectional pair, and each such pair must be
//! exercised by a `#[test]` whose name contains `round_trip` and whose body
//! names every type of the pair. The functions here read the text; reading
//! the files is the caller's.
//!
//! Names are canonicalised by dropping one trailing `Out` (the wrapper
//! convention `XMsg` / `XMsgOut`) and by mapping each alias pair onto its
//! first member.

use vstd::prelude::*;

use crate::text::{
    before_char, char_is_whitespace, chars_of, contains, ends_with, find, find_chars,
    index_of_char, is_whitespace, lemma_find_from_bounds, lemma_lines_total_len,
    lemma_total_len_nonneg, lemma_total_len_push, lemma_total_len_subrange, lines, lines_of,
    occurs_at, slice_chars, starts_with, starts_with_chars, string_of, total_len, trim, trim_chars,
    trim_start, trim_start_chars, views,
};

verus! {

broadcast use vstd::string::group_string_axioms;

/// A line that opens a conversion impl: it starts with `impl` and names
/// `TryFrom<` or ` From<`.
pub open spec fn spec_is_conversion_impl_line(line: Seq<char>) -> bool {
    starts_with(line, "impl"@) && (contains(line, "TryFrom<"@) || contains(line, " From<"@))
}

/// A line that declares a round-trip test function: it starts with `fn `
/// and names `round_trip`.
pub open spec fn spec_is_round_trip_test_line(line: Seq<char>) -> bool {
    starts_with(line, "fn "@) && contains(line, "round_trip"@)
}

/// The type names that count as one for reverse-edge matching; each pair
/// maps onto its first member.
pub open spec fn alias_table() -> Seq<(Seq<char>, Seq<char>)> {
    seq![("Shape"@, "Mesh"@)]
}

/// `name` without one trailing `Out`.
pub open spec fn strip_out(name: Seq<char>) -> Seq<char> {
    if ends_with(name, "Out"@) {
        name.subrange(0, name.len() - "Out"@.len())
    } else {
        name
    }
}

/// `stripped` mapped through the aliases from index `k` of `table` on.
pub open spec fn alias_from(
    stripped: Seq<char>,
    table: Seq<(Seq<char>, Seq<char>)>,
    k: int,
) -> Seq<char>
    decreases table.len() - k,
{
    if k < 0 || k >= table.len() {
        stripped
    } else if stripped == table[k].0 || stripped == table[k].1 {
        table[k].0
    } else {
        alias_from(stripped, table, k + 1)
    }
}

/// The canonical form of a type name.
pub open spec fn spec_canon(name: Seq<char>) -> Seq<char> {
    alias_from(strip_out(name), alias_table(), 0)
}

/// Where the type parameter of the conversion trait begins: just after the
/// first `TryFrom<`, else just after the first ` From<`.
pub open spec fn marker_end(line: Seq<char>) -> Option<int> {
    match find(line, "TryFrom<"@) {
        Some(i) => Some(i + "TryFrom<"@.len()),
        None => match find(line, " From<"@) {
            Some(i) => Some(i + " From<"@.len()),
            None => None,
        },
    }
}

/// The index of the `>` that closes an angle bracket opened before index
/// `i`, scanning from `i` with `depth` brackets open.
pub open spec fn close_from(s: Seq<char>, i: int, depth: int) -> Option<int>
    decreases s.len() - i,
{
    if i < 0 || i >= s.len() {
        None
    } else if s[i] == '<' {
        close_from(s, i + 1, depth + 1)
    } else if s[i] == '>' {
        if depth - 1 == 0 {
            Some(i)
        } else {
            close_from(s, i + 1, depth - 1)
        }
    } else {
        close_from(s, i + 1, depth)
    }
}

/// The first index at or after `i` that ends a type name (`<`, `{` or
/// whitespace), or `s.len()`.
pub open spec fn ident_end_from(s: Seq<char>, i: int) -> int
    decreases s.len() - i,
{
    if i < 0 || i >= s.len() {
        s.len() as int
    } else if s[i] == '<' || s[i] == '{' || is_whitespace(s[i]) {
        i
    } else {
        ident_end_from(s, i + 1)
    }
}

/// The source and target type names of a conversion-impl line, with
/// generic and lifetime arguments removed; `None` when the line does not
/// have that shape or either name would be empty.
pub open spec fn spec_parse_conversion(line: Seq<char>) -> Option<(Seq<char>, Seq<char>)> {
    match marker_end(line) {
        None => None,
        Some(m) => {
            let rest = line.subrange(m, line.len() as int);
            match close_from(rest, 0, 1) {
                None => None,
                Some(close) => {
                    let from_base = trim(before_char(rest.subrange(0, close), '<'));
                    let after = trim_start(rest.subrange(close + 1, rest.len() as int));
                    if !starts_with(after, "for "@) {
                        None
                    } else {
                        let after2 = trim_start(after.subrange("for "@.len() as int, after.len() as int));
                        let to_base = after2.subrange(0, ident_end_from(after2, 0));
                        if from_base.len() == 0 || to_base.len() == 0 {
                            None
                        } else {
                            Some((from_base, to_base))
                        }
                    }
                }
            }
        }
    }
}

pub proof fn lemma_ident_end_bounds(s: Seq<char>, i: int)
    requires
        0 <= i <= s.len(),
    ensures
        i <= ident_end_from(s, i) <= s.len(),
    decreases s.len() - i,
{
    if i < s.len() && !(s[i] == '<' || s[i] == '{' || is_whitespace(s[i])) {
        lemma_ident_end_bounds(s, i + 1);
    }
}

pub proof fn lemma_close_from_bounds(s: Seq<char>, i: int, depth: int)
    ensures
        close_from(s, i, depth) matches Some(k) ==> 0 <= i <= k < s.len(),
    decreases s.len() - i,
{
    if i < 0 || i >= s.len() {
    } else if s[i] == '<' {
        lemma_close_from_bounds(s, i + 1, depth + 1);
    } else if s[i] == '>' {
        if depth - 1 != 0 {
            lemma_close_from_bounds(s, i + 1, depth - 1);
        }
    } else {
        lemma_close_from_bounds(s, i + 1, depth);
    }
}

fn literal(s: &str) -> (v: Vec<char>)
    ensures
        v@ == s@,
{
    chars_of(s)
}

/// Whether a (left-trimmed) source line opens a conversion impl.
pub fn is_conversion_impl_line_chars(line: &[char]) -> (b: bool)
    ensures
        b == spec_is_conversion_impl_line(line@),
{
    starts_with_chars(line, &literal("impl")) && (find_chars(line, &literal("TryFrom<")).is_some()
        || find_chars(line, &literal(" From<")).is_some())
}

/// Whether a (left-trimmed) source line opens a conversion impl.
pub fn is_conversion_impl_line(line: &str) -> (b: bool)
    ensures
        b == spec_is_conversion_impl_line(line@),
{
    is_conversion_impl_line_chars(&chars_of(line))
}

/// Whether a (left-trimmed) source line declares a round-trip test.
pub fn is_round_trip_test_line_chars(line: &[char]) -> (b: bool)
    ensures
        b == spec_is_round_trip_test_line(line@),
{
    starts_with_chars(line, &literal("fn ")) && find_chars(line, &literal("round_trip")).is_some()
}

/// Whether a (left-trimmed) source line declares a round-trip test.
pub fn is_round_trip_test_line(line: &str) -> (b: bool)
    ensures
        b == spec_is_round_trip_test_line(line@),
{
    is_round_trip_test_line_chars(&chars_of(line))
}

/// The alias pairs, in the order they are consulted.
fn aliases() -> (v: Vec<(Vec<char>, Vec<char>)>)
    ensures
        v@.len() == alias_table().len(),
        forall|k: int|
            0 <= k < v@.len() ==> (#[trigger] v@[k]).0@ == alias_table()[k].0 && v@[k].1@
                == alias_table()[k].1,
{
    let mut v: Vec<(Vec<char>, Vec<char>)> = Vec::new();
    v.push((literal("Shape"), literal("Mesh")));
    v
}

fn chars_eq(a: &[char], b: &[char]) -> (r: bool)
    ensures
        r == (a@ == b@),
{
    if a.len() != b.len() {
        return false;
    }
    let r = starts_with_chars(a, b);
    proof {
        assert(a@ =~= a@.subrange(0, b@.len() as int));
    }
    r
}

/// The canonical form of a type name, as characters.
pub fn canon_chars(name: &[char]) -> (r: Vec<char>)
    ensures
        r@ == spec_canon(name@),
{
    let out = literal("Out");
    let stripped = if out.len() <= name.len() && chars_eq(
        &slice_chars(name, name.len() - out.len(), name.len()),
        &out,
    ) {
        slice_chars(name, 0, name.len() - out.len())
    } else {
        slice_chars(name, 0, name.len())
    };
    proof {
        assert(name@.subrange(0, name@.len() as int) =~= name@);
    }
    let table = aliases();
    let mut k: usize = 0;
    while k < table.len()
        invariant
            k <= table@.len(),
            table@.len() == alias_table().len(),
            forall|m: int|
                0 <= m < table@.len() ==> (#[trigger] table@[m]).0@ == alias_table()[m].0
                    && table@[m].1@ == alias_table()[m].1,
            stripped@ == strip_out(name@),
            spec_canon(name@) == alias_from(stripped@, alias_table(), k as int),
        decreases table@.len() - k,
    {
        if chars_eq(&stripped, &table[k].0) || chars_eq(&stripped, &table[k].1) {
            return slice_chars(&table[k].0, 0, table[k].0.len());
        }
        k = k + 1;
    }
    stripped
}

/// The canonical form of a type name.
pub fn canon(name: &str) -> (r: String)
    ensures
        r@ == spec_canon(name@),
{
    string_of(&canon_chars(&chars_of(name)))
}

fn closing_angle(s: &[char]) -> (r: Option<usize>)
    ensures
        r matches Some(k) ==> close_from(s@, 0, 1) == Some(k as int),
        r is None ==> close_from(s@, 0, 1) is None,
{
    let n = s.len();
    let mut depth: u128 = 1;
    let mut k: usize = 0;
    while k < n
        invariant
            n == s@.len(),
            k <= n,
            1 <= depth <= k + 1,
            close_from(s@, 0, 1) == close_from(s@, k as int, depth as int),
        decreases n - k,
    {
        let c = s[k];
        if c == '<' {
            depth = depth + 1;
        } else if c == '>' {
            if depth == 1 {
                return Some(k);
            }
            depth = depth - 1;
        }
        k = k + 1;
    }
    None
}

fn ident_end(s: &[char]) -> (k: usize)
    ensures
        k as int == ident_end_from(s@, 0),
        k <= s@.len(),
{
    let n = s.len();
    let mut k: usize = 0;
    while k < n && !(s[k] == '<' || s[k] == '{' || char_is_whitespace(s[k]))
        invariant
            n == s@.len(),
            k <= n,
            ident_end_from(s@, 0) == ident_end_from(s@, k as int),
        decreases n - k,
    {
        k = k + 1;
    }
    k
}

/// The source and target type names of a conversion-impl line, as
/// characters.
pub fn parse_conversion_chars(line: &[char]) -> (r: Option<(Vec<char>, Vec<char>)>)
    ensures
        r matches Some(p) ==> spec_parse_conversion(line@) == Some((p.0@, p.1@)),
        r is None ==> spec_parse_conversion(line@) is None,
{
    let try_from = literal("TryFrom<");
    let from = literal(" From<");
    let n = line.len();
    let m: usize = match find_chars(line, &try_from) {
        Some(i) => {
            proof {
                lemma_find_from_bounds(line@, try_from@, 0);
                assert(occurs_at(line@, try_from@, i as int));
            }
            i + try_from.len()
        },
        None => match find_chars(line, &from) {
            Some(i) => {
                proof {
                    lemma_find_from_bounds(line@, from@, 0);
                    assert(occurs_at(line@, from@, i as int));
                }
                i + from.len()
            },
            None => {
                return None;
            },
        },
    };
    let rest = slice_chars(line, m, line.len());
    let close = match closing_angle(&rest) {
        Some(c) => c,
        None => {
            return None;
        },
    };
    proof {
        lemma_close_from_bounds(rest@, 0, 1);
    }
    let head = slice_chars(&rest, 0, close);
    let cut = index_of_char(&head, '<', 0);
    let from_base = trim_chars(&slice_chars(&head, 0, cut));
    let after = trim_start_chars(&slice_chars(&rest, close + 1, rest.len()));
    let for_kw = literal("for ");
    if !starts_with_chars(&after, &for_kw) {
        return None;
    }
    let after2 = trim_start_chars(&slice_chars(&after, for_kw.len(), after.len()));
    let end = ident_end(&after2);
    let to_base = slice_chars(&after2, 0, end);
    if from_base.len() == 0 || to_base.len() == 0 {
        None
    } else {
        Some((from_base, to_base))
    }
}

/// The source and target type names of a conversion-impl line.
pub fn parse_conversion(line: &str) -> (r: Option<(String, String)>)
    ensures
        r matches Some(p) ==> spec_parse_conversion(line@) == Some((p.0@, p.1@)),
        r is None ==> spec_parse_conversion(line@) is None,
{
    match parse_conversion_chars(&chars_of(line)) {
        Some((a, b)) => Some((string_of(&a), string_of(&b))),
        None => None,
    }
}


/// Brace depth and "a brace has opened" after scanning `line` from the
/// given state.
pub open spec fn scan_line(line: Seq<char>, depth: int, started: bool) -> (int, bool)
    decreases line.len(),
{
    if line.len() == 0 {
        (depth, started)
    } else {
        let (d, st) = scan_line(line.drop_last(), depth, started);
        let c = line.last();
        if c == '{' {
            (d + 1, true)
        } else if c == '}' {
            (d - 1, st)
        } else {
            (d, st)
        }
    }
}

/// The index of the line that closes the brace block scanned from line
/// `j` on, or `ls.len()` when no line closes it.
pub open spec fn block_end(ls: Seq<Seq<char>>, j: int, depth: int, started: bool) -> int
    decreases ls.len() - j,
{
    if j < 0 || j >= ls.len() {
        ls.len() as int
    } else {
        let (d, st) = scan_line(ls[j], depth, started);
        if st && d <= 0 {
            j
        } else {
            block_end(ls, j + 1, d, st)
        }
    }
}

/// Lines `i..j` of `ls`, each followed by a newline.
pub open spec fn joined(ls: Seq<Seq<char>>, i: int, j: int) -> Seq<char>
    decreases j - i,
{
    if i >= j {
        seq![]
    } else {
        joined(ls, i, j - 1) + ls[j - 1] + seq!['\n']
    }
}

/// The function name declared by a round-trip test line.
pub open spec fn test_name(trimmed: Seq<char>) -> Seq<char> {
    before_char(trimmed.subrange("fn "@.len() as int, trimmed.len() as int), '(')
}

pub proof fn lemma_block_end_bounds(ls: Seq<Seq<char>>, j: int, depth: int, started: bool)
    requires
        0 <= j <= ls.len(),
    ensures
        j <= block_end(ls, j, depth, started) <= ls.len(),
    decreases ls.len() - j,
{
    if j < ls.len() {
        let (d, st) = scan_line(ls[j], depth, started);
        if !(st && d <= 0) {
            lemma_block_end_bounds(ls, j + 1, d, st);
        }
    }
}

/// The `(name, body)` of every round-trip test declared from line `i` of
/// `ls` on: a line that declares one and directly follows a `#[test]` line
/// opens a body that runs through the line where its braces close.
pub open spec fn bodies_from(ls: Seq<Seq<char>>, i: int) -> Seq<(Seq<char>, Seq<char>)>
    decreases ls.len() + 1 - i,
{
    if i < 0 || i >= ls.len() {
        seq![]
    } else {
        let trimmed = trim_start(ls[i]);
        let preceded = i > 0 && starts_with(trim_start(ls[i - 1]), "#[test]"@);
        if preceded && spec_is_round_trip_test_line(trimmed) {
            let stop = block_end(ls, i, 0, false);
            proof {
                lemma_block_end_bounds(ls, i, 0, false);
            }
            let last = if stop < ls.len() {
                stop + 1
            } else {
                ls.len() as int
            };
            seq![(test_name(trimmed), joined(ls, i, last))] + bodies_from(ls, stop + 1)
        } else {
            bodies_from(ls, i + 1)
        }
    }
}

/// The round-trip test bodies of every file, in file order.
pub open spec fn spec_round_trip_test_bodies(files: Seq<(Seq<char>, Seq<char>)>) -> Seq<
    (Seq<char>, Seq<char>),
>
    decreases files.len(),
{
    if files.len() == 0 {
        seq![]
    } else {
        spec_round_trip_test_bodies(files.drop_last()) + bodies_from(lines(files.last().1), 0)
    }
}

/// `(path, text)` pairs as character sequences.
pub open spec fn file_views(files: Seq<(String, String)>) -> Seq<(Seq<char>, Seq<char>)> {
    files.map_values(|f: (String, String)| (f.0@, f.1@))
}

proof fn lemma_scan_line_step(line: Seq<char>, k: int, depth: int, started: bool)
    requires
        0 <= k < line.len(),
    ensures
        scan_line(line.subrange(0, k + 1), depth, started) == ({
            let (d, st) = scan_line(line.subrange(0, k), depth, started);
            let c = line[k];
            if c == '{' {
                (d + 1, true)
            } else if c == '}' {
                (d - 1, st)
            } else {
                (d, st)
            }
        }),
{
    assert(line.subrange(0, k + 1).drop_last() =~= line.subrange(0, k));
}

/// Scans one line for braces and appends it, plus a newline, to `body`.
fn scan_and_append(line: &Vec<char>, depth: i128, started: bool, body: &mut Vec<char>) -> (r: (
    i128,
    bool,
))
    requires
        -0x1_0000_0000_0000_0000_0000 <= depth <= 0x1_0000_0000_0000_0000_0000,
        line@.len() <= 0x1_0000_0000_0000_0000_0000,
    ensures
        (r.0 as int, r.1) == scan_line(line@, depth as int, started),
        final(body)@ == old(body)@ + line@ + seq!['\n'],
        depth - line@.len() <= r.0 <= depth + line@.len(),
{
    let mut d = depth;
    let mut st = started;
    let mut k: usize = 0;
    let ghost start_body = body@;
    assert(line@.subrange(0, 0) =~= seq![]);
    while k < line.len()
        invariant
            k <= line@.len(),
            line@.len() <= 0x1_0000_0000_0000_0000_0000,
            -0x1_0000_0000_0000_0000_0000 <= depth <= 0x1_0000_0000_0000_0000_0000,
            (d as int, st) == scan_line(line@.subrange(0, k as int), depth as int, started),
            depth - k <= d <= depth + k,
            body@ == start_body + line@.subrange(0, k as int),
        decreases line@.len() - k,
    {
        let c = line[k];
        proof {
            lemma_scan_line_step(line@, k as int, depth as int, started);
        }
        if c == '{' {
            d = d + 1;
            st = true;
        } else if c == '}' {
            d = d - 1;
        }
        body.push(c);
        k = k + 1;
        assert(body@ =~= start_body + line@.subrange(0, k as int));
    }
    body.push('\n');
    assert(line@.subrange(0, line@.len() as int) =~= line@);
    (d, st)
}

/// The line where the brace block opening at line `i` closes (or
/// `ls.len()`), and the text of that block.
fn block(ls: &Vec<Vec<char>>, i: usize, Ghost(bound): Ghost<int>) -> (r: (usize, Vec<char>))
    requires
        i < ls@.len(),
        total_len(views(ls@)) <= bound,
        bound <= 0x1_0000_0000_0000_0000,
    ensures
        r.0 as int == block_end(views(ls@), i as int, 0, false),
        r.1@ == joined(
            views(ls@),
            i as int,
            if r.0 < ls@.len() {
                r.0 + 1
            } else {
                ls@.len() as int
            },
        ),
{
    let ghost v = views(ls@);
    let n = ls.len();
    let mut depth: i128 = 0;
    let mut started = false;
    let mut body: Vec<char> = Vec::new();
    let mut j = i;
    proof {
        lemma_total_len_nonneg(v);
        assert(v.subrange(i as int, i as int) =~= seq![]);
    }
    while j < n
        invariant
            n == ls@.len(),
            v == views(ls@),
            i <= j <= n,
            total_len(v) <= bound,
            bound <= 0x1_0000_0000_0000_0000,
            block_end(v, i as int, 0, false) == block_end(v, j as int, depth as int, started),
            body@ == joined(v, i as int, j as int),
            -total_len(v.subrange(i as int, j as int)) <= depth <= total_len(
                v.subrange(i as int, j as int),
            ),
        decreases n - j,
    {
        proof {
            lemma_total_len_subrange(v, i as int, j as int);
            lemma_total_len_subrange(v, i as int, j + 1);
            assert(v.subrange(i as int, j + 1) =~= v.subrange(i as int, j as int).push(v[j as int]));
            lemma_total_len_push(v.subrange(i as int, j as int), v[j as int]);
        }
        let (d, st) = scan_and_append(&ls[j], depth, started, &mut body);
        depth = d;
        started = st;
        assert(body@ =~= joined(v, i as int, j + 1));
        if started && depth <= 0 {
            return (j, body);
        }
        j = j + 1;
    }
    (n, body)
}

/// The `(name, body)` of every round-trip test declared in `files`, each a
/// `(path, text)` pair: a `fn` line naming `round_trip` directly after a
/// `#[test]` line, through the line where its braces close.
pub fn round_trip_test_bodies(files: &[(String, String)]) -> (r: Vec<(String, String)>)
    ensures
        file_views(r@) == spec_round_trip_test_bodies(file_views(files@)),
{
    let mut out: Vec<(String, String)> = Vec::new();
    let mut f: usize = 0;
    while f < files.len()
        invariant
            f <= files@.len(),
            file_views(out@) == spec_round_trip_test_bodies(file_views(files@.subrange(0, f as int))),
        decreases files@.len() - f,
    {
        let text = chars_of(files[f].1.as_str());
        let ls = lines_of(&text);
        let ghost v = views(ls@);
        proof {
            lemma_lines_total_len(text@, 0);
        }
        let ghost acc = file_views(out@);
        let _text_len = text.len();
        let n = ls.len();
        let mut i: usize = 0;
        while i < n
            invariant
                n == ls@.len(),
                v == views(ls@),
                v == lines(text@),
                total_len(v) <= text@.len(),
                text@.len() <= usize::MAX,
                file_views(out@) + bodies_from(v, i as int) == acc + bodies_from(v, 0),
            decreases n - i,
        {
            let trimmed = trim_start_chars(&ls[i]);
            let preceded = i > 0 && starts_with_chars(
                &trim_start_chars(&ls[i - 1]),
                &literal("#[test]"),
            );
            if preceded && is_round_trip_test_line_chars(&trimmed) {
                let (stop, body) = block(&ls, i, Ghost(text@.len() as int));
                proof {
                    lemma_block_end_bounds(v, i as int, 0, false);
                }
                let fn_kw = literal("fn ");
                let tail = slice_chars(&trimmed, fn_kw.len(), trimmed.len());
                let cut = index_of_char(&tail, '(', 0);
                let name = slice_chars(&tail, 0, cut);
                let ghost before = out@;
                out.push((string_of(&name), string_of(&body)));
                proof {
                    assert(file_views(out@) =~= file_views(before).push((name@, body@)));
                    assert(bodies_from(v, i as int) == seq![(name@, body@)] + bodies_from(
                        v,
                        stop + 1,
                    ));
                    assert(file_views(out@) + bodies_from(v, stop + 1) =~= file_views(before)
                        + bodies_from(v, i as int));
                }
                if stop >= n {
                    i = n;
                    proof {
                        assert(bodies_from(v, stop + 1) =~= seq![]);
                    }
                } else {
                    i = stop + 1;
                }
            } else {
                i = i + 1;
            }
        }
        proof {
            let fs = file_views(files@.subrange(0, f + 1));
            assert(fs.drop_last() =~= file_views(files@.subrange(0, f as int)));
            assert(fs.last().1 == text@);
            assert(bodies_from(v, i as int) =~= seq![]);
            assert(file_views(out@) =~= acc + bodies_from(v, 0));
        }
        f = f + 1;
    }
    proof {
        assert(files@.subrange(0, files@.len() as int) =~= files@);
    }
    out
}


/// One directed conversion: `impl TryFrom<from> for to` (or `From`) in
/// `file`.
#[derive(Debug, Clone)]
pub struct Edge {
    /// The file the impl line was read from.
    pub file: String,
    /// The source type name.
    pub from: String,
    /// The target type name.
    pub to: String,
}

/// An edge as `(file, from, to)` character sequences.
pub open spec fn edge_view(e: Edge) -> (Seq<char>, Seq<char>, Seq<char>) {
    (e.file@, e.from@, e.to@)
}

/// The edges in `es`, viewed.
pub open spec fn edge_views(es: Seq<Edge>) -> Seq<(Seq<char>, Seq<char>, Seq<char>)> {
    es.map_values(|e: Edge| edge_view(e))
}

/// The edge a single source line of `file` contributes, if any.
pub open spec fn edge_of_line(file: Seq<char>, line: Seq<char>) -> Seq<
    (Seq<char>, Seq<char>, Seq<char>),
> {
    let t = trim_start(line);
    if spec_is_conversion_impl_line(t) {
        match spec_parse_conversion(t) {
            Some((a, b)) => seq![(file, a, b)],
            None => seq![],
        }
    } else {
        seq![]
    }
}

/// The edges the lines `ls` of `file` contribute, in line order.
pub open spec fn edges_of_lines(file: Seq<char>, ls: Seq<Seq<char>>) -> Seq<
    (Seq<char>, Seq<char>, Seq<char>),
>
    decreases ls.len(),
{
    if ls.len() == 0 {
        seq![]
    } else {
        edges_of_lines(file, ls.drop_last()) + edge_of_line(file, ls.last())
    }
}

/// Every conversion edge of `files`, in file and line order.
pub open spec fn spec_all_edges(files: Seq<(Seq<char>, Seq<char>)>) -> Seq<
    (Seq<char>, Seq<char>, Seq<char>),
>
    decreases files.len(),
{
    if files.len() == 0 {
        seq![]
    } else {
        spec_all_edges(files.drop_last()) + edges_of_lines(files.last().0, lines(files.last().1))
    }
}

/// Every conversion edge declared in `files`, each a `(path, text)` pair.
pub fn all_edges(files: &[(String, String)]) -> (r: Vec<Edge>)
    ensures
        edge_views(r@) == spec_all_edges(file_views(files@)),
{
    let mut out: Vec<Edge> = Vec::new();
    let mut f: usize = 0;
    while f < files.len()
        invariant
            f <= files@.len(),
            edge_views(out@) == spec_all_edges(file_views(files@.subrange(0, f as int))),
        decreases files@.len() - f,
    {
        let text = chars_of(files[f].1.as_str());
        let ls = lines_of(&text);
        let ghost v = views(ls@);
        let ghost acc = edge_views(out@);
        let n = ls.len();
        let mut i: usize = 0;
        assert(v.subrange(0, 0) =~= seq![]);
        while i < n
            invariant
                n == ls@.len(),
                i <= n,
                f < files@.len(),
                v == views(ls@),
                v == lines(text@),
                text@ == files@[f as int].1@,
                edge_views(out@) == acc + edges_of_lines(files@[f as int].0@, v.subrange(0, i as int)),
            decreases n - i,
        {
            let t = trim_start_chars(&ls[i]);
            let ghost before = edge_views(out@);
            if is_conversion_impl_line_chars(&t) {
                match parse_conversion_chars(&t) {
                    Some((a, b)) => {
                        out.push(
                            Edge {
                                file: files[f].0.clone(),
                                from: string_of(&a),
                                to: string_of(&b),
                            },
                        );
                        assert(edge_views(out@) =~= before + edge_of_line(
                            files@[f as int].0@,
                            v[i as int],
                        ));
                    },
                    None => {
                        assert(edge_views(out@) =~= before + edge_of_line(
                            files@[f as int].0@,
                            v[i as int],
                        ));
                    },
                }
            } else {
                assert(edge_views(out@) =~= before + edge_of_line(files@[f as int].0@, v[i as int]));
            }
            proof {
                assert(v.subrange(0, i + 1).drop_last() =~= v.subrange(0, i as int));
            }
            i = i + 1;
        }
        proof {
            let fs = file_views(files@.subrange(0, f + 1));
            assert(fs.drop_last() =~= file_views(files@.subrange(0, f as int)));
            assert(v.subrange(0, n as int) =~= v);
        }
        f = f + 1;
    }
    proof {
        assert(files@.subrange(0, files@.len() as int) =~= files@);
    }
    out
}

/// Some edge of `edges` runs the other way from `e`, compared by canonical
/// names.
pub open spec fn spec_has_reverse(edges: Seq<(Seq<char>, Seq<char>, Seq<char>)>, e: (
    Seq<char>,
    Seq<char>,
    Seq<char>,
)) -> bool {
    exists|k: int|
        0 <= k < edges.len() && spec_canon((#[trigger] edges[k]).1) == spec_canon(e.2)
            && spec_canon(edges[k].2) == spec_canon(e.1)
}

/// Whether some edge of `edges` runs the other way from `e`.
pub fn has_reverse(edges: &[Edge], e: &Edge) -> (b: bool)
    ensures
        b == spec_has_reverse(edge_views(edges@), edge_view(*e)),
{
    let cf = canon_chars(&chars_of(e.from.as_str()));
    let ct = canon_chars(&chars_of(e.to.as_str()));
    let mut k: usize = 0;
    while k < edges.len()
        invariant
            k <= edges@.len(),
            cf@ == spec_canon(e.from@),
            ct@ == spec_canon(e.to@),
            forall|m: int|
                0 <= m < k ==> !(spec_canon((#[trigger] edge_views(edges@)[m]).1) == spec_canon(
                    e.to@,
                ) && spec_canon(edge_views(edges@)[m].2) == spec_canon(e.from@)),
        decreases edges@.len() - k,
    {
        let of = canon_chars(&chars_of(edges[k].from.as_str()));
        let ot = canon_chars(&chars_of(edges[k].to.as_str()));
        if chars_eq(&of, &ct) && chars_eq(&ot, &cf) {
            assert(edge_views(edges@)[k as int] == edge_view(edges@[k as int]));
            return true;
        }
        assert(edge_views(edges@)[k as int] == edge_view(edges@[k as int]));
        k = k + 1;
    }
    false
}

/// Which kind of source line a census counts.
#[derive(Debug, Clone, Copy, PartialEq, Eq, Structural)]
pub enum LinePattern {
    /// [`is_conversion_impl_line`].
    ConversionImpl,
    /// [`is_round_trip_test_line`].
    RoundTripTest,
}

/// Whether `line` matches `pattern`.
pub open spec fn pattern_holds(pattern: LinePattern, line: Seq<char>) -> bool {
    match pattern {
        LinePattern::ConversionImpl => spec_is_conversion_impl_line(line),
        LinePattern::RoundTripTest => spec_is_round_trip_test_line(line),
    }
}

/// How many lines of `ls`, left-trimmed, match `pattern`.
pub open spec fn count_lines(ls: Seq<Seq<char>>, pattern: LinePattern) -> int
    decreases ls.len(),
{
    if ls.len() == 0 {
        0
    } else {
        count_lines(ls.drop_last(), pattern) + if pattern_holds(pattern, trim_start(ls.last())) {
            1int
        } else {
            0int
        }
    }
}

/// How many lines of `text`, left-trimmed, match `pattern`.
pub fn count_matching_lines(text: &str, pattern: LinePattern) -> (c: usize)
    ensures
        c as int == count_lines(lines(text@), pattern),
{
    let ls = lines_of(&chars_of(text));
    let ghost v = views(ls@);
    let n = ls.len();
    let mut c: usize = 0;
    let mut i: usize = 0;
    assert(v.subrange(0, 0) =~= seq![]);
    while i < n
        invariant
            n == ls@.len(),
            i <= n,
            c <= i,
            v == views(ls@),
            c as int == count_lines(v.subrange(0, i as int), pattern),
        decreases n - i,
    {
        let t = trim_start_chars(&ls[i]);
        let hit = match pattern {
            LinePattern::ConversionImpl => is_conversion_impl_line_chars(&t),
            LinePattern::RoundTripTest => is_round_trip_test_line_chars(&t),
        };
        proof {
            assert(v.subrange(0, i + 1).drop_last() =~= v.subrange(0, i as int));
        }
        if hit {
            c = c + 1;
        }
        i = i + 1;
    }
    assert(v.subrange(0, n as int) =~= v);
    c
}

/// A conversion pair's type names are compared with one trailing `Out`
/// removed: a name and its `Out` counterpart are the same type.
pub proof fn canon_ignores_one_out_suffix(name: Seq<char>)
    requires
        !ends_with(name, "Out"@),
    ensures
        spec_canon(name + "Out"@) == spec_canon(name),
{
    reveal_strlit("Out");
    let full = name + "Out"@;
    assert(full.subrange(full.len() - 3, full.len() as int) =~= "Out"@);
    assert(full.subrange(0, full.len() - 3) =~= name);
}

/// `Shape`, `Mesh` and `MeshOut` name one type, so a conversion between
/// any two of them counts as one pair.
pub proof fn canon_merges_the_alias_pair()
    ensures
        spec_canon("Mesh"@) == "Shape"@,
        spec_canon("Shape"@) == "Shape"@,
        spec_canon("MeshOut"@) == "Shape"@,
{
    reveal_strlit("Out");
    reveal_strlit("Mesh");
    reveal_strlit("Shape");
    reveal_strlit("MeshOut");
    assert(!ends_with("Mesh"@, "Out"@)) by {
        assert("Mesh"@.subrange(1, 4)[0] == 'e');
    }
    assert(!ends_with("Shape"@, "Out"@)) by {
        assert("Shape"@.subrange(2, 5) != "Out"@) by {
            assert("Shape"@.subrange(2, 5)[0] == 'a');
        }
    }
    let mo = "MeshOut"@;
    assert(mo.subrange(4, 7) =~= "Out"@);
    assert(mo.subrange(0, 4) =~= "Mesh"@);
}

/// Two edges are each other's reverse when each one's source is the
/// other's target, up to the name canonicalisation.
pub open spec fn edges_reverse(
    x: (Seq<char>, Seq<char>, Seq<char>),
    y: (Seq<char>, Seq<char>, Seq<char>),
) -> bool {
    spec_canon(x.1) == spec_canon(y.2) && spec_canon(x.2) == spec_canon(y.1)
}

/// Being reversed is symmetric: when an edge of the list reverses another
/// edge of the list, that edge in turn has a reverse, the first one. So a
/// pair is bidirectional from either side or from neither.
pub proof fn a_reverse_has_a_reverse(edges: Seq<(Seq<char>, Seq<char>, Seq<char>)>, k: int, m: int)
    requires
        0 <= k < edges.len(),
        0 <= m < edges.len(),
        edges_reverse(edges[k], edges[m]),
    ensures
        spec_has_reverse(edges, edges[m]),
        spec_has_reverse(edges, edges[k]),
{
    assert(spec_canon(edges[k].1) == spec_canon(edges[m].2));
    assert(spec_canon(edges[m].1) == spec_canon(edges[k].2));
}

/// The census's own file, relative to the source root: it is excluded
/// from every scan, as auditing the auditor would be circular.
pub const SELF_PATH: &'static str = "conversion_coverage.rs";

/// The files that are not the census's own file, in order.
pub open spec fn spec_except_self(files: Seq<(Seq<char>, Seq<char>)>) -> Seq<(Seq<char>, Seq<char>)>
    decreases files.len(),
{
    if files.len() == 0 {
        Seq::empty()
    } else {
        let rest = spec_except_self(files.drop_last());
        if files.last().0 == SELF_PATH@ {
            rest
        } else {
            rest.push(files.last())
        }
    }
}

/// The `(path, text)` pairs of the source tree, less the census's own file.
pub fn all_rs_files_except_self(files: Vec<(String, String)>) -> (r: Vec<(String, String)>)
    ensures
        file_views(r@) == spec_except_self(file_views(files@)),
{
    let ghost all = file_views(files@);
    let n = files.len();
    let mut files = files;
    let mut kept: Vec<(String, String)> = Vec::new();
    let mut k: usize = 0;
    let self_path = SELF_PATH.to_owned();
    while k < n
        invariant
            n == all.len(),
            k <= n,
            files@.len() == n - k,
            forall|i: int| 0 <= i < n - k ==> (#[trigger] files@[i]).0@ == all[k + i].0 && files@[i].1@ == all[k + i].1,
            file_views(kept@) == spec_except_self(all.take(k as int)),
            self_path@ == SELF_PATH@,
        decreases n - k,
    {
        let f = files.remove(0);
        proof {
            assert(all.take(k + 1).drop_last() =~= all.take(k as int));
            assert(all.take(k + 1).last() == all[k as int]);
        }
        if !(f.0 == self_path) {
            let ghost before = kept@;
            kept.push(f);
            proof {
                assert(file_views(kept@) =~= file_views(before).push(all[k as int]));
            }
        }
        k = k + 1;
    }
    proof {
        assert(all.take(n as int) =~= all);
    }
    kept
}

} // verus!
