//! Character-level text toolkit shared by the rest of the crate.
//!
//! Text is modelled as a sequence of Unicode scalar values (`Seq<char>`), the
//! view that vstd gives to `str` and `String`.

use vstd::prelude::*;
use vstd::std_specs::iter::IteratorSpec;

verus! {

broadcast use vstd::string::group_string_axioms;

// ---------------------------------------------------------------------------
// Specification
// ---------------------------------------------------------------------------

/// The Unicode `White_Space` property (the set `str::trim` strips).
pub open spec fn is_white_space(c: char) -> bool {
    let u = c as u32;
    ||| 0x09 <= u <= 0x0d
    ||| u == 0x20
    ||| u == 0x85
    ||| u == 0xa0
    ||| u == 0x1680
    ||| 0x2000 <= u <= 0x200a
    ||| u == 0x2028
    ||| u == 0x2029
    ||| u == 0x202f
    ||| u == 0x205f
    ||| u == 0x3000
}

/// `s` with its leading white space removed.
pub open spec fn trim_start(s: Seq<char>) -> Seq<char>
    decreases s.len(),
{
    if s.len() > 0 && is_white_space(s[0]) {
        trim_start(s.drop_first())
    } else {
        s
    }
}

/// `s` with its trailing white space removed.
pub open spec fn trim_end(s: Seq<char>) -> Seq<char>
    decreases s.len(),
{
    if s.len() > 0 && is_white_space(s.last()) {
        trim_end(s.drop_last())
    } else {
        s
    }
}

/// `s` with white space removed at both ends.
pub open spec fn trim(s: Seq<char>) -> Seq<char> {
    trim_end(trim_start(s))
}

/// `p` occurs in `s` starting at index `i`.
pub open spec fn matches_at(s: Seq<char>, p: Seq<char>, i: int) -> bool {
    0 <= i && i + p.len() <= s.len() && s.subrange(i, i + p.len()) == p
}

pub open spec fn starts_with(s: Seq<char>, p: Seq<char>) -> bool {
    matches_at(s, p, 0)
}

pub open spec fn ends_with(s: Seq<char>, p: Seq<char>) -> bool {
    matches_at(s, p, s.len() - p.len())
}

/// `p` occurs somewhere in `s`.
pub open spec fn contains(s: Seq<char>, p: Seq<char>) -> bool {
    exists|i: int| matches_at(s, p, i)
}

/// The first index at or after `i` where `p` occurs in `s`.
pub open spec fn find_from(s: Seq<char>, p: Seq<char>, i: int) -> Option<int>
    decreases s.len() + 1 - i,
{
    if i < 0 || i + p.len() > s.len() {
        None
    } else if matches_at(s, p, i) {
        Some(i)
    } else {
        find_from(s, p, i + 1)
    }
}

/// The first index where `p` occurs in `s`.
pub open spec fn find(s: Seq<char>, p: Seq<char>) -> Option<int> {
    find_from(s, p, 0)
}

/// Every occurrence of `p` in `s` replaced by `r`, scanning from the left and
/// resuming after each replaced occurrence (the meaning of `str::replace`).
pub open spec fn replace_all(s: Seq<char>, p: Seq<char>, r: Seq<char>) -> Seq<char>
    decreases s.len(),
{
    if p.len() == 0 || s.len() < p.len() {
        s
    } else if s.take(p.len() as int) == p {
        r + replace_all(s.skip(p.len() as int), p, r)
    } else {
        seq![s[0]] + replace_all(s.drop_first(), p, r)
    }
}

/// Searching a suffix of `s` is searching `s` from the suffix's start.
pub proof fn lemma_find_from_skip(s: Seq<char>, p: Seq<char>, k: int, j: int)
    requires
        0 <= k <= j,
        k <= s.len(),
    ensures
        find_from(s, p, j) == (match find_from(s.skip(k), p, j - k) {
            Some(i) => Some(i + k),
            None => None::<int>,
        }),
    decreases s.len() + 1 - j,
{
    let t = s.skip(k);
    if j + p.len() > s.len() {
    } else {
        assert(t.subrange(j - k, j - k + p.len()) == s.subrange(j, j + p.len()));
        if !matches_at(s, p, j) {
            lemma_find_from_skip(s, p, k, j + 1);
        }
    }
}

/// A match found by `find_from` lies inside the searched sequence.
pub proof fn lemma_find_from_spec_bounds(s: Seq<char>, p: Seq<char>, j: int)
    ensures
        find_from(s, p, j) matches Some(k) ==> j <= k && matches_at(s, p, k),
    decreases s.len() + 1 - j,
{
    if j < 0 || j + p.len() > s.len() {
    } else if matches_at(s, p, j) {
    } else {
        lemma_find_from_spec_bounds(s, p, j + 1);
    }
}

/// A line without the carriage return that ends it, if any.
pub open spec fn strip_cr(l: Seq<char>) -> Seq<char> {
    if l.len() > 0 && l.last() == '\r' {
        l.drop_last()
    } else {
        l
    }
}

/// The lines of `s` (the meaning of `str::lines`): split at each `\n`, a `\r`
/// just before the `\n` removed; a final line break ends the last line
/// rather than starting an empty one.
pub open spec fn lines(s: Seq<char>) -> Seq<Seq<char>>
    decreases s.len(),
{
    if s.len() == 0 {
        seq![]
    } else {
        match find(s, seq!['\n']) {
            None => seq![s],
            Some(i) => {
                proof {
                    lemma_find_from_spec_bounds(s, seq!['\n'], 0);
                }
                seq![strip_cr(s.take(i))] + lines(s.skip(i + 1))
            },
        }
    }
}

/// The decimal digits `0` to `9`.
pub open spec fn digit_chars() -> Seq<char> {
    seq!['0', '1', '2', '3', '4', '5', '6', '7', '8', '9']
}

/// The decimal representation of `n`, without leading zeros.
pub open spec fn decimal(n: nat) -> Seq<char>
    decreases n,
{
    if n < 10 {
        seq![digit_chars()[n as int]]
    } else {
        decimal(n / 10) + seq![digit_chars()[(n % 10) as int]]
    }
}

/// The words `true` and `false`.
pub open spec fn bool_text(b: bool) -> Seq<char> {
    if b {
        seq!['t', 'r', 'u', 'e']
    } else {
        seq!['f', 'a', 'l', 's', 'e']
    }
}

/// The number of bytes of the UTF-8 encoding of `c`.
pub open spec fn utf8_width(c: char) -> nat {
    let u = c as u32;
    if u < 0x80 {
        1
    } else if u < 0x800 {
        2
    } else if u < 0x10000 {
        3
    } else {
        4
    }
}

/// The number of bytes of the UTF-8 encoding of `s`.
pub open spec fn utf8_len(s: Seq<char>) -> nat
    decreases s.len(),
{
    if s.len() == 0 {
        0
    } else {
        utf8_len(s.drop_last()) + utf8_width(s.last())
    }
}

/// The parts joined with `sep` between consecutive parts.
pub open spec fn join(parts: Seq<Seq<char>>, sep: Seq<char>) -> Seq<char>
    decreases parts.len(),
{
    if parts.len() == 0 {
        seq![]
    } else if parts.len() == 1 {
        parts[0]
    } else {
        join(parts.drop_last(), sep) + sep + parts.last()
    }
}

/// The character views of a sequence of strings.
pub open spec fn views(v: Seq<String>) -> Seq<Seq<char>> {
    v.map_values(|s: String| s@)
}

// ---------------------------------------------------------------------------
// Conversions
// ---------------------------------------------------------------------------

/// `String::push`: the contract claims that the string afterwards is the old
/// one with `c` appended, as the documentation of `String::push` says.
#[verifier::external_body]
pub(crate) fn push_char(s: &mut String, c: char)
    ensures
        final(s)@ == old(s)@.push(c),
{
    s.push(c);
}

/// The characters of a string slice, in order.
pub fn chars_of(s: &str) -> (v: Vec<char>)
    ensures
        v@ == s@,
{
    let mut v: Vec<char> = Vec::new();
    for c in it: s.chars()
        invariant
            v@ == it.seq().take(it.index() as int),
    {
        v.push(c);
    }
    v
}

/// The string made of the given characters.
pub fn string_of(v: &Vec<char>) -> (s: String)
    ensures
        s@ == v@,
{
    let mut s = String::new();
    let mut i: usize = 0;
    while i < v.len()
        invariant
            i <= v.len(),
            s@ == v@.take(i as int),
        decreases v.len() - i,
    {
        push_char(&mut s, v[i]);
        i = i + 1;
        assert(s@ == v@.take(i as int));
    }
    assert(v@.take(v.len() as int) == v@);
    s
}

/// Appends all characters of `src` to `dst`.
pub fn append_chars(dst: &mut Vec<char>, src: &Vec<char>)
    ensures
        final(dst)@ == old(dst)@ + src@,
{
    let mut i: usize = 0;
    while i < src.len()
        invariant
            i <= src.len(),
            dst@ == old(dst)@ + src@.take(i as int),
        decreases src.len() - i,
    {
        dst.push(src[i]);
        i = i + 1;
        assert(dst@ == old(dst)@ + src@.take(i as int));
    }
    assert(src@.take(src.len() as int) == src@);
}

/// The characters of `v` in the index range `lo..hi`.
pub fn copy_range(v: &Vec<char>, lo: usize, hi: usize) -> (r: Vec<char>)
    requires
        lo <= hi <= v.len(),
    ensures
        r@ == v@.subrange(lo as int, hi as int),
{
    let mut r: Vec<char> = Vec::new();
    let mut i: usize = lo;
    while i < hi
        invariant
            lo <= i <= hi <= v.len(),
            r@ == v@.subrange(lo as int, i as int),
        decreases hi - i,
    {
        r.push(v[i]);
        i = i + 1;
        assert(r@ == v@.subrange(lo as int, i as int));
    }
    r
}

// ---------------------------------------------------------------------------
// Trimming and searching
// ---------------------------------------------------------------------------

pub fn is_white_space_char(c: char) -> (b: bool)
    ensures
        b == is_white_space(c),
{
    let u = c as u32;
    (0x09 <= u && u <= 0x0d) || u == 0x20 || u == 0x85 || u == 0xa0 || u == 0x1680 || (0x2000
        <= u && u <= 0x200a) || u == 0x2028 || u == 0x2029 || u == 0x202f || u == 0x205f || u
        == 0x3000
}

/// The number of leading white-space characters of `v` from index `lo`.
pub fn trim_start_index(v: &Vec<char>, lo: usize) -> (i: usize)
    requires
        lo <= v.len(),
    ensures
        lo <= i <= v.len(),
        v@.subrange(i as int, v.len() as int) == trim_start(v@.subrange(lo as int, v.len() as int)),
{
    let mut i = lo;
    while i < v.len() && is_white_space_char(v[i])
        invariant
            lo <= i <= v.len(),
            trim_start(v@.subrange(i as int, v.len() as int)) == trim_start(
                v@.subrange(lo as int, v.len() as int),
            ),
        decreases v.len() - i,
    {
        assert(v@.subrange(i as int, v.len() as int).drop_first() == v@.subrange(
            i + 1,
            v.len() as int,
        ));
        i = i + 1;
    }
    i
}

/// The end of `v[lo..hi]` once its trailing white space is removed.
pub fn trim_end_index(v: &Vec<char>, lo: usize, hi: usize) -> (j: usize)
    requires
        lo <= hi <= v.len(),
    ensures
        lo <= j <= hi,
        v@.subrange(lo as int, j as int) == trim_end(v@.subrange(lo as int, hi as int)),
{
    let mut j = hi;
    while j > lo && is_white_space_char(v[j - 1])
        invariant
            lo <= j <= hi <= v.len(),
            trim_end(v@.subrange(lo as int, j as int)) == trim_end(
                v@.subrange(lo as int, hi as int),
            ),
        decreases j,
    {
        assert(v@.subrange(lo as int, j as int).drop_last() == v@.subrange(
            lo as int,
            j - 1,
        ));
        j = j - 1;
    }
    j
}

/// Whether `p` occurs in `v` at index `i`.
pub fn matches_at_exec(v: &Vec<char>, p: &Vec<char>, i: usize) -> (b: bool)
    ensures
        b == matches_at(v@, p@, i as int),
{
    if i > v.len() || p.len() > v.len() - i {
        return false;
    }
    let mut k: usize = 0;
    while k < p.len()
        invariant
            i + p.len() <= v.len(),
            k <= p.len(),
            forall|m: int| 0 <= m < k ==> v@[i + m] == p@[m],
        decreases p.len() - k,
    {
        if v[i + k] != p[k] {
            assert(v@.subrange(i as int, i + p.len())[k as int] != p@[k as int]);
            return false;
        }
        k = k + 1;
    }
    assert(v@.subrange(i as int, i + p.len()) == p@);
    true
}

/// The first index at or after `i` where `p` occurs in `v`.
pub fn find_from_exec(v: &Vec<char>, p: &Vec<char>, i: usize) -> (r: Option<usize>)
    ensures
        match r {
            Some(k) => find_from(v@, p@, i as int) == Some(k as int),
            None => find_from(v@, p@, i as int) is None,
        },
{
    if p.len() == 0 {
        if i <= v.len() {
            assert(v@.subrange(i as int, i as int) =~= p@);
            return Some(i);
        }
        return None;
    }
    let mut k = i;
    while k <= v.len() && p.len() <= v.len() - k
        invariant
            i <= k,
            p.len() > 0,
            find_from(v@, p@, k as int) == find_from(v@, p@, i as int),
        decreases v.len() + 1 - k,
    {
        if matches_at_exec(v, p, k) {
            return Some(k);
        }
        k = k + 1;
    }
    None
}

/// `v` with every occurrence of the non-empty pattern `p` replaced by `r`.
pub fn replace_all_exec(v: &Vec<char>, p: &Vec<char>, r: &Vec<char>) -> (out: Vec<char>)
    requires
        p.len() > 0,
    ensures
        out@ == replace_all(v@, p@, r@),
{
    let mut out: Vec<char> = Vec::new();
    let mut i: usize = 0;
    assert(v@.skip(0) == v@);
    while i < v.len()
        invariant
            i <= v.len(),
            p@.len() > 0,
            replace_all(v@, p@, r@) == out@ + replace_all(v@.skip(i as int), p@, r@),
        decreases v.len() - i,
    {
        let ghost rest = v@.skip(i as int);
        if p.len() <= v.len() - i && matches_at_exec(v, p, i) {
            assert(rest.take(p.len() as int) == v@.subrange(i as int, i + p.len()));
            assert(rest.skip(p.len() as int) == v@.skip(i + p.len()));
            append_chars(&mut out, r);
            i = i + p.len();
        } else {
            proof {
                if rest.len() >= p@.len() {
                    assert(rest.take(p.len() as int) == v@.subrange(i as int, i + p.len()));
                }
            }
            assert(rest.drop_first() == v@.skip(i + 1));
            out.push(v[i]);
            i = i + 1;
        }
    }
    assert(v@.skip(v.len() as int).len() == 0);
    out
}

// ---------------------------------------------------------------------------
// Lines, numbers and words
// ---------------------------------------------------------------------------

/// The lines of `v` (see [`lines`]).
pub fn lines_exec(v: &Vec<char>) -> (out: Vec<Vec<char>>)
    ensures
        out@.map_values(|l: Vec<char>| l@) == lines(v@),
{
    let mut out: Vec<Vec<char>> = Vec::new();
    let mut nl: Vec<char> = Vec::new();
    nl.push('\n');
    let mut pos: usize = 0;
    assert(v@.skip(0) == v@);
    while pos < v.len()
        invariant
            pos <= v.len(),
            nl@ == seq!['\n'],
            lines(v@) == out@.map_values(|l: Vec<char>| l@) + lines(v@.skip(pos as int)),
        decreases v.len() - pos,
    {
        let ghost rest = v@.skip(pos as int);
        proof {
            lemma_find_from_skip(v@, nl@, pos as int, pos as int);
            assert(rest.skip(0) == rest);
            lemma_find_from_spec_bounds(v@, nl@, pos as int);
        }
        match find_from_exec(v, &nl, pos) {
            None => {
                let last = copy_range(v, pos, v.len());
                let ghost before = out@.map_values(|l: Vec<char>| l@);
                out.push(last);
                assert(out@.map_values(|l: Vec<char>| l@) == before.push(rest));
                assert(v@.skip(v.len() as int).len() == 0);
                assert(lines(v@.skip(v.len() as int)) == Seq::<Seq<char>>::empty());
                pos = v.len();
            },
            Some(k) => {
                let mut line_end = k;
                if k > pos && v[k - 1] == '\r' {
                    line_end = k - 1;
                }
                let line = copy_range(v, pos, line_end);
                let i = k - pos;
                assert(rest.take(i as int) == v@.subrange(pos as int, k as int));
                assert(line@ == strip_cr(rest.take(i as int)));
                assert(rest.skip(i + 1) == v@.skip(k + 1));
                let ghost before = out@.map_values(|l: Vec<char>| l@);
                out.push(line);
                assert(out@.map_values(|l: Vec<char>| l@) == before.push(line@));
                pos = k + 1;
            },
        }
    }
    assert(lines(v@.skip(pos as int)) == Seq::<Seq<char>>::empty());
    out
}

fn digit_char(d: u128) -> (c: char)
    requires
        d < 10,
    ensures
        c == digit_chars()[d as int],
{
    if d == 0 {
        '0'
    } else if d == 1 {
        '1'
    } else if d == 2 {
        '2'
    } else if d == 3 {
        '3'
    } else if d == 4 {
        '4'
    } else if d == 5 {
        '5'
    } else if d == 6 {
        '6'
    } else if d == 7 {
        '7'
    } else if d == 8 {
        '8'
    } else {
        '9'
    }
}

/// The decimal digits of `n`.
pub fn decimal_exec(n: u128) -> (v: Vec<char>)
    ensures
        v@ == decimal(n as nat),
    decreases n,
{
    if n < 10 {
        let mut v: Vec<char> = Vec::new();
        v.push(digit_char(n));
        v
    } else {
        let mut v = decimal_exec(n / 10);
        v.push(digit_char(n % 10));
        v
    }
}

/// The number of bytes of the UTF-8 encoding of `v`.
pub fn utf8_len_exec(v: &Vec<char>) -> (n: u128)
    ensures
        n == utf8_len(v@),
{
    let mut n: u128 = 0;
    let mut i: usize = 0;
    while i < v.len()
        invariant
            i <= v.len(),
            n == utf8_len(v@.take(i as int)),
            n <= 4 * i,
        decreases v.len() - i,
    {
        let u = v[i] as u32;
        let w: u128 = if u < 0x80 {
            1
        } else if u < 0x800 {
            2
        } else if u < 0x10000 {
            3
        } else {
            4
        };
        assert(v@.take(i + 1).drop_last() == v@.take(i as int));
        n = n + w;
        i = i + 1;
    }
    assert(v@.take(v.len() as int) == v@);
    n
}

/// The strings joined with `sep` between consecutive ones.
pub fn join_exec(parts: &Vec<String>, sep: &Vec<char>) -> (out: Vec<char>)
    ensures
        out@ == join(views(parts@), sep@),
{
    let mut out: Vec<char> = Vec::new();
    let mut i: usize = 0;
    while i < parts.len()
        invariant
            i <= parts.len(),
            out@ == join(views(parts@).take(i as int), sep@),
        decreases parts.len() - i,
    {
        let ghost prefix = views(parts@).take(i as int);
        assert(views(parts@).take(i + 1).drop_last() == prefix);
        if i > 0 {
            append_chars(&mut out, sep);
        } else {
            assert(prefix.len() == 0);
        }
        append_chars(&mut out, &chars_of(parts[i].as_str()));
        i = i + 1;
    }
    assert(views(parts@).take(parts.len() as int) == views(parts@));
    out
}

/// The word `true` or `false`.
pub fn bool_text_exec(b: bool) -> (v: Vec<char>)
    ensures
        v@ == bool_text(b),
{
    if b {
        let v = chars_of("true");
        proof {
            reveal_strlit("true");
        }
        v
    } else {
        let v = chars_of("false");
        proof {
            reveal_strlit("false");
        }
        v
    }
}

} // verus!
