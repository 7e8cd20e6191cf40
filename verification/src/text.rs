//! Character-level text helpers, each stated over `Seq<char>` views.
//!
//! Indices here count characters, not bytes, so every slice taken through
//! these functions starts and ends on a character boundary by construction.

use vstd::prelude::*;
use vstd::std_specs::iter::IteratorSpec;

verus! {

broadcast use vstd::string::group_string_axioms;

/// `char::is_whitespace`: the Unicode `White_Space` property.
pub open spec fn is_whitespace(c: char) -> bool {
    let u = c as u32;
    ||| 0x09 <= u <= 0x0D
    ||| u == 0x20
    ||| u == 0x85
    ||| u == 0xA0
    ||| u == 0x1680
    ||| 0x2000 <= u <= 0x200A
    ||| u == 0x2028
    ||| u == 0x2029
    ||| u == 0x202F
    ||| u == 0x205F
    ||| u == 0x3000
}

/// `s` without its leading whitespace (`str::trim_start`).
pub open spec fn trim_start(s: Seq<char>) -> Seq<char>
    decreases s.len(),
{
    if s.len() > 0 && is_whitespace(s[0]) {
        trim_start(s.drop_first())
    } else {
        s
    }
}

/// `s` without its trailing whitespace (`str::trim_end`).
pub open spec fn trim_end(s: Seq<char>) -> Seq<char>
    decreases s.len(),
{
    if s.len() > 0 && is_whitespace(s.last()) {
        trim_end(s.drop_last())
    } else {
        s
    }
}

/// `s` without leading or trailing whitespace (`str::trim`).
pub open spec fn trim(s: Seq<char>) -> Seq<char> {
    trim_end(trim_start(s))
}

/// `s` begins with `p`.
pub open spec fn starts_with(s: Seq<char>, p: Seq<char>) -> bool {
    p.len() <= s.len() && s.subrange(0, p.len() as int) == p
}

/// `s` ends with `p`.
pub open spec fn ends_with(s: Seq<char>, p: Seq<char>) -> bool {
    p.len() <= s.len() && s.subrange(s.len() - p.len(), s.len() as int) == p
}

/// `p` occurs in `s` starting at index `i`.
pub open spec fn occurs_at(s: Seq<char>, p: Seq<char>, i: int) -> bool {
    0 <= i && i + p.len() <= s.len() && s.subrange(i, i + p.len()) == p
}

/// The first index at or after `i` where `p` occurs in `s`.
pub open spec fn find_from(s: Seq<char>, p: Seq<char>, i: int) -> Option<int>
    decreases s.len() + 1 - i,
{
    if i < 0 || i + p.len() > s.len() {
        None
    } else if occurs_at(s, p, i) {
        Some(i)
    } else {
        find_from(s, p, i + 1)
    }
}

/// The first index where `p` occurs in `s` (`str::find`).
pub open spec fn find(s: Seq<char>, p: Seq<char>) -> Option<int> {
    find_from(s, p, 0)
}

/// `p` occurs somewhere in `s` (`str::contains`).
pub open spec fn contains(s: Seq<char>, p: Seq<char>) -> bool {
    find(s, p) is Some
}

/// The first index at or after `i` holding `c`, or `s.len()` when there is
/// none.
pub open spec fn index_of_char_from(s: Seq<char>, c: char, i: int) -> int
    decreases s.len() - i,
{
    if i < 0 || i >= s.len() {
        s.len() as int
    } else if s[i] == c {
        i
    } else {
        index_of_char_from(s, c, i + 1)
    }
}

/// The part of `s` before the first `c` (`s.split(c).next()`).
pub open spec fn before_char(s: Seq<char>, c: char) -> Seq<char> {
    s.subrange(0, index_of_char_from(s, c, 0))
}

pub proof fn lemma_find_from_bounds(s: Seq<char>, p: Seq<char>, i: int)
    ensures
        find_from(s, p, i) matches Some(k) ==> i <= k && occurs_at(s, p, k),
    decreases s.len() + 1 - i,
{
    if i < 0 || i + p.len() > s.len() {
    } else if occurs_at(s, p, i) {
    } else {
        lemma_find_from_bounds(s, p, i + 1);
    }
}

pub proof fn lemma_index_of_char_from_bounds(s: Seq<char>, c: char, i: int)
    requires
        0 <= i <= s.len(),
    ensures
        i <= index_of_char_from(s, c, i) <= s.len(),
        index_of_char_from(s, c, i) < s.len() ==> s[index_of_char_from(s, c, i)] == c,
        forall|j: int| i <= j < index_of_char_from(s, c, i) ==> s[j] != c,
    decreases s.len() - i,
{
    if i < s.len() && s[i] != c {
        lemma_index_of_char_from_bounds(s, c, i + 1);
    }
}

/// The characters of `s`, in order.
pub fn chars_of(s: &str) -> (v: Vec<char>)
    ensures
        v@ == s@,
{
    let mut out: Vec<char> = Vec::new();
    let mut it = s.chars();
    loop
        invariant
            out@ + it.remaining() == s@,
            it.decrease() is Some,
        ensures
            out@ == s@,
        decreases it.decrease()->0,
    {
        let next = it.next();
        match next {
            Some(c) => {
                out.push(c);
            },
            None => {
                assert(out@ + it.remaining() =~= out@);
                break;
            },
        }
    }
    out
}

/// `Iterator::collect` of `v`'s characters into a `String` (std's
/// `FromIterator<&char> for String`, which pushes each character in turn):
/// the string holds exactly the characters of `v`, in order.
#[verifier::external_body]
pub(crate) fn string_of(v: &[char]) -> (s: String)
    ensures
        s@ == v@,
{
    v.iter().collect()
}

/// `char::is_whitespace`.
pub fn char_is_whitespace(c: char) -> (b: bool)
    ensures
        b == is_whitespace(c),
{
    let u = c as u32;
    (0x09 <= u && u <= 0x0D) || u == 0x20 || u == 0x85 || u == 0xA0 || u == 0x1680 || (0x2000
        <= u && u <= 0x200A) || u == 0x2028 || u == 0x2029 || u == 0x202F || u == 0x205F || u
        == 0x3000
}

/// The characters of `s` from index `i` (inclusive) to `j` (exclusive).
pub fn slice_chars(s: &[char], i: usize, j: usize) -> (r: Vec<char>)
    requires
        i <= j <= s@.len(),
    ensures
        r@ == s@.subrange(i as int, j as int),
{
    let mut out: Vec<char> = Vec::new();
    let mut k = i;
    while k < j
        invariant
            i <= k <= j <= s@.len(),
            out@ == s@.subrange(i as int, k as int),
        decreases j - k,
    {
        out.push(s[k]);
        k = k + 1;
        assert(out@ =~= s@.subrange(i as int, k as int));
    }
    out
}

pub proof fn lemma_trim_start_step(s: Seq<char>, i: int)
    requires
        0 <= i < s.len(),
        is_whitespace(s[i]),
    ensures
        trim_start(s.subrange(i, s.len() as int)) == trim_start(s.subrange(i + 1, s.len() as int)),
{
    assert(s.subrange(i, s.len() as int).drop_first() =~= s.subrange(i + 1, s.len() as int));
}

pub proof fn lemma_trim_end_step(s: Seq<char>, j: int)
    requires
        0 < j <= s.len(),
        is_whitespace(s[j - 1]),
    ensures
        trim_end(s.subrange(0, j)) == trim_end(s.subrange(0, j - 1)),
{
    assert(s.subrange(0, j).drop_last() =~= s.subrange(0, j - 1));
}

/// The index of the first character of `s` that is not whitespace, or
/// `s.len()`.
pub fn trim_start_index(s: &[char]) -> (k: usize)
    ensures
        k <= s@.len(),
        s@.subrange(k as int, s@.len() as int) == trim_start(s@),
{
    let mut k: usize = 0;
    proof {
        assert(s@.subrange(0, s@.len() as int) =~= s@);
    }
    while k < s.len() && char_is_whitespace(s[k])
        invariant
            k <= s@.len(),
            trim_start(s@.subrange(k as int, s@.len() as int)) == trim_start(s@),
        decreases s@.len() - k,
    {
        proof {
            lemma_trim_start_step(s@, k as int);
        }
        k = k + 1;
    }
    k
}

/// `s` without its leading whitespace.
pub fn trim_start_chars(s: &[char]) -> (r: Vec<char>)
    ensures
        r@ == trim_start(s@),
{
    let k = trim_start_index(s);
    slice_chars(s, k, s.len())
}

/// `s` without leading or trailing whitespace.
pub fn trim_chars(s: &[char]) -> (r: Vec<char>)
    ensures
        r@ == trim(s@),
{
    let t = trim_start_chars(s);
    let mut j = t.len();
    assert(t@.subrange(0, j as int) =~= t@);
    while j > 0 && char_is_whitespace(t[j - 1])
        invariant
            j <= t@.len(),
            trim_end(t@.subrange(0, j as int)) == trim_end(t@),
        decreases j,
    {
        proof {
            lemma_trim_end_step(t@, j as int);
        }
        j = j - 1;
    }
    slice_chars(&t, 0, j)
}

/// `s` begins with `p`.
pub fn starts_with_chars(s: &[char], p: &[char]) -> (b: bool)
    ensures
        b == starts_with(s@, p@),
{
    if p.len() > s.len() {
        return false;
    }
    let mut k: usize = 0;
    while k < p.len()
        invariant
            p@.len() <= s@.len(),
            k <= p@.len(),
            forall|m: int| 0 <= m < k ==> s@[m] == p@[m],
        decreases p@.len() - k,
    {
        if s[k] != p[k] {
            assert(s@.subrange(0, p@.len() as int)[k as int] != p@[k as int]);
            return false;
        }
        k = k + 1;
    }
    assert(s@.subrange(0, p@.len() as int) =~= p@);
    true
}

/// `p` occurs in `s` at index `i`.
pub fn occurs_at_chars(s: &[char], p: &[char], i: usize) -> (b: bool)
    ensures
        b == occurs_at(s@, p@, i as int),
{
    let n = s.len();
    if i > n || p.len() > n - i {
        return false;
    }
    let mut k: usize = 0;
    while k < p.len()
        invariant
            i + p@.len() <= s@.len(),
            n == s@.len(),
            k <= p@.len(),
            forall|m: int| 0 <= m < k ==> s@[i + m] == p@[m],
        decreases p@.len() - k,
    {
        if s[i + k] != p[k] {
            assert(s@.subrange(i as int, i + p@.len())[k as int] != p@[k as int]);
            return false;
        }
        k = k + 1;
    }
    assert(s@.subrange(i as int, i + p@.len()) =~= p@);
    true
}

/// The first index where `p` occurs in `s`.
pub fn find_chars(s: &[char], p: &[char]) -> (r: Option<usize>)
    ensures
        r matches Some(k) ==> find(s@, p@) == Some(k as int),
        r is None ==> find(s@, p@) is None,
{
    let mut i: usize = 0;
    let n = s.len();
    if p.len() > n {
        return None;
    }
    if p.len() == 0 {
        assert(occurs_at(s@, p@, 0)) by {
            assert(s@.subrange(0, 0) =~= p@);
        }
        return Some(0);
    }
    while i <= n - p.len()
        invariant
            n == s@.len(),
            0 < p@.len() <= s@.len(),
            i <= s@.len() - p@.len() + 1,
            find(s@, p@) == find_from(s@, p@, i as int),
        decreases s@.len() + 1 - i,
    {
        if occurs_at_chars(s, p, i) {
            return Some(i);
        }
        i = i + 1;
    }
    None
}

/// The index of the first `c` in `s` at or after `i`, or `s.len()`.
pub fn index_of_char(s: &[char], c: char, i: usize) -> (k: usize)
    requires
        i <= s@.len(),
    ensures
        k as int == index_of_char_from(s@, c, i as int),
        i <= k <= s@.len(),
{
    proof {
        lemma_index_of_char_from_bounds(s@, c, i as int);
    }
    let mut k = i;
    while k < s.len() && s[k] != c
        invariant
            i <= k <= s@.len(),
            index_of_char_from(s@, c, k as int) == index_of_char_from(s@, c, i as int),
        decreases s@.len() - k,
    {
        k = k + 1;
    }
    k
}


/// `line` without one trailing carriage return.
pub open spec fn strip_cr(line: Seq<char>) -> Seq<char> {
    if line.len() > 0 && line.last() == '\r' {
        line.drop_last()
    } else {
        line
    }
}

/// The lines of `s` from index `i` on, as `str::lines` yields them: split
/// at `'\n'`, one `'\r'` removed before each `'\n'`, and no empty line
/// after a final `'\n'`.
pub open spec fn lines_from(s: Seq<char>, i: int) -> Seq<Seq<char>>
    decreases s.len() + 1 - i,
{
    if i < 0 || i >= s.len() {
        seq![]
    } else {
        let j = index_of_char_from(s, '\n', i);
        proof {
            lemma_index_of_char_from_bounds(s, '\n', i);
        }
        let raw = s.subrange(i, j);
        let line = if j < s.len() {
            strip_cr(raw)
        } else {
            raw
        };
        seq![line] + lines_from(s, j + 1)
    }
}

/// The lines of `s` (`str::lines`).
pub open spec fn lines(s: Seq<char>) -> Seq<Seq<char>> {
    lines_from(s, 0)
}

/// The views of a sequence of character vectors.
pub open spec fn views(v: Seq<Vec<char>>) -> Seq<Seq<char>> {
    v.map_values(|l: Vec<char>| l@)
}

/// The views of a sequence of strings.
pub open spec fn string_views(v: Seq<String>) -> Seq<Seq<char>> {
    v.map_values(|s: String| s@)
}

/// The total number of characters in `ls`.
pub open spec fn total_len(ls: Seq<Seq<char>>) -> int
    decreases ls.len(),
{
    if ls.len() == 0 {
        0
    } else {
        ls[0].len() + total_len(ls.drop_first())
    }
}

/// The lines of `s` from `i` on hold no more characters than `s` does from
/// `i` on.
pub proof fn lemma_lines_total_len(s: Seq<char>, i: int)
    requires
        0 <= i <= s.len(),
    ensures
        total_len(lines_from(s, i)) <= s.len() - i,
    decreases s.len() + 1 - i,
{
    if i < s.len() {
        let j = index_of_char_from(s, '\n', i);
        lemma_index_of_char_from_bounds(s, '\n', i);
        let ls = lines_from(s, i);
        assert(ls.drop_first() =~= lines_from(s, j + 1));
        assert(ls[0].len() <= j - i);
        assert(total_len(ls) == ls[0].len() + total_len(ls.drop_first()));
        if j + 1 <= s.len() {
            lemma_lines_total_len(s, j + 1);
        } else {
            assert(lines_from(s, j + 1) =~= seq![]);
        }
    }
}

/// A character count is never negative.
pub proof fn lemma_total_len_nonneg(ls: Seq<Seq<char>>)
    ensures
        0 <= total_len(ls),
    decreases ls.len(),
{
    if ls.len() > 0 {
        lemma_total_len_nonneg(ls.drop_first());
    }
}

/// The characters in a contiguous run of `ls` are no more than all of them.
pub proof fn lemma_total_len_subrange(ls: Seq<Seq<char>>, a: int, b: int)
    requires
        0 <= a <= b <= ls.len(),
    ensures
        total_len(ls.subrange(a, b)) <= total_len(ls),
        0 <= total_len(ls.subrange(a, b)),
    decreases ls.len(),
{
    lemma_total_len_nonneg(ls);
    lemma_total_len_nonneg(ls.subrange(a, b));
    if ls.len() > 0 {
        assert(total_len(ls) == ls[0].len() + total_len(ls.drop_first()));
        if a > 0 {
            assert(ls.drop_first().subrange(a - 1, b - 1) =~= ls.subrange(a, b));
            lemma_total_len_subrange(ls.drop_first(), a - 1, b - 1);
        } else if b > 0 {
            let t = ls.subrange(0, b);
            assert(t.drop_first() =~= ls.drop_first().subrange(0, b - 1));
            assert(total_len(t) == t[0].len() + total_len(t.drop_first()));
            lemma_total_len_subrange(ls.drop_first(), 0, b - 1);
        } else {
            assert(ls.subrange(a, b) =~= seq![]);
        }
    }
}

/// Splits `s` into its lines, as `str::lines` does.
pub fn lines_of(s: &[char]) -> (v: Vec<Vec<char>>)
    ensures
        views(v@) == lines(s@),
{
    let n = s.len();
    let mut out: Vec<Vec<char>> = Vec::new();
    let mut i: usize = 0;
    while i < n
        invariant
            n == s@.len(),
            i <= n,
            lines(s@) == views(out@) + lines_from(s@, i as int),
        decreases n - i,
    {
        let j = index_of_char(s, '\n', i);
        let mut line = slice_chars(s, i, j);
        if j < n && line.len() > 0 && line[line.len() - 1] == '\r' {
            line.pop();
            assert(line@ =~= s@.subrange(i as int, j as int).drop_last());
        }
        proof {
            let ls = lines_from(s@, i as int);
            assert(ls =~= seq![line@] + lines_from(s@, j + 1));
        }
        let ghost before = out@;
        out.push(line);
        proof {
            assert(views(out@) =~= views(before).push(line@));
            assert(views(out@) + lines_from(s@, j + 1) =~= views(before) + (seq![line@]
                + lines_from(s@, j + 1)));
        }
        if j == n {
            i = n;
        } else {
            i = j + 1;
        }
    }
    proof {
        assert(lines_from(s@, i as int) =~= seq![]);
        assert(lines(s@) =~= views(out@));
    }
    out
}


/// Appending a line adds its length to the total.
pub proof fn lemma_total_len_push(ls: Seq<Seq<char>>, x: Seq<char>)
    ensures
        total_len(ls.push(x)) == total_len(ls) + x.len(),
    decreases ls.len(),
{
    let lx = ls.push(x);
    assert(total_len(lx) == lx[0].len() + total_len(lx.drop_first()));
    if ls.len() == 0 {
        assert(lx.drop_first() =~= seq![]);
        assert(total_len(lx.drop_first()) == 0);
    } else {
        assert(lx.drop_first() =~= ls.drop_first().push(x));
        assert(total_len(ls) == ls[0].len() + total_len(ls.drop_first()));
        lemma_total_len_push(ls.drop_first(), x);
    }
}


/// The decimal digit character for `d < 10`.
pub open spec fn digit_char(d: nat) -> char {
    if d == 0 {
        '0'
    } else if d == 1 {
        '1'
    } else if d == 2 {
        '2'
    } else if d == 3 {
        '3'
    } else if d == 4 {
        '4'
    } else if d == 5 {
        '5'
    } else if d == 6 {
        '6'
    } else if d == 7 {
        '7'
    } else if d == 8 {
        '8'
    } else {
        '9'
    }
}

/// The decimal rendering of `n`, without leading zeros.
pub open spec fn decimal(n: nat) -> Seq<char>
    decreases n,
{
    if n < 10 {
        seq![digit_char(n)]
    } else {
        decimal(n / 10) + seq![digit_char(n % 10)]
    }
}

fn digit(d: u64) -> (c: char)
    requires
        d < 10,
    ensures
        c == digit_char(d as nat),
{
    if d == 0 {
        '0'
    } else if d == 1 {
        '1'
    } else if d == 2 {
        '2'
    } else if d == 3 {
        '3'
    } else if d == 4 {
        '4'
    } else if d == 5 {
        '5'
    } else if d == 6 {
        '6'
    } else if d == 7 {
        '7'
    } else if d == 8 {
        '8'
    } else {
        '9'
    }
}

fn decimal_chars(n: u64) -> (v: Vec<char>)
    ensures
        v@ == decimal(n as nat),
    decreases n,
{
    if n < 10 {
        let mut v: Vec<char> = Vec::new();
        v.push(digit(n));
        assert(v@ =~= seq![digit_char(n as nat)]);
        v
    } else {
        let mut v = decimal_chars(n / 10);
        v.push(digit(n % 10));
        v
    }
}

/// The decimal rendering of `n`.
pub fn decimal_string(n: u64) -> (s: String)
    ensures
        s@ == decimal(n as nat),
{
    string_of(&decimal_chars(n))
}

} // verus!
