//! Command-line settings and the validation of dimension arguments.

use vstd::prelude::*;

use crate::text::{
    chars_of, copy_range, ends_with, matches_at_exec, string_of, trim, trim_end_index,
    trim_start_index, append_chars, trim_start, trim_end, is_white_space,
};

verus! {

broadcast use vstd::string::group_string_axioms;

// ---------------------------------------------------------------------------
// Settings
// ---------------------------------------------------------------------------

/// The settings of one invocation: which files to convert, where to write
/// them and how to lay out the pages.
#[derive(Debug)]
pub struct Cli {
    /// Markdown files to convert. Standard input is read when there are none.
    pub files: Vec<String>,
    /// Output file path; only valid with a single input file or stdin.
    pub output: Option<String>,
    /// Generate a table of contents.
    pub toc: bool,
    /// Number document sections.
    pub number_sections: bool,
    /// Page margin (e.g. `1in`, `0.75in`, `2cm`).
    pub margin: String,
    /// Font size (e.g. `10pt`, `11pt`).
    pub font_size: String,
    /// Additional typst code to include before the template.
    pub include_preamble: Option<String>,
    /// Report results as JSON lines.
    pub json: bool,
    /// Print the generated typst source without rendering.
    pub dry_run: bool,
    /// Show typst warnings.
    pub verbose: bool,
    /// Maximum number of parallel render jobs.
    pub jobs: usize,
}

/// The settings used when no flag is given.
pub open spec fn is_default_cli(c: Cli) -> bool {
    &&& c.files@.len() == 0
    &&& c.output is None
    &&& !c.toc
    &&& !c.number_sections
    &&& c.margin@ == "1in"@
    &&& c.font_size@ == "11pt"@
    &&& c.include_preamble is None
    &&& !c.json
    &&& !c.dry_run
    &&& !c.verbose
    &&& c.jobs == 8
}

impl Default for Cli {
    fn default() -> (c: Self)
        ensures
            is_default_cli(c),
    {
        Cli {
            files: Vec::new(),
            output: None,
            toc: false,
            number_sections: false,
            margin: string_of(&chars_of("1in")),
            font_size: string_of(&chars_of("11pt")),
            include_preamble: None,
            json: false,
            dry_run: false,
            verbose: false,
            jobs: 8,
        }
    }
}

// ---------------------------------------------------------------------------
// Number syntax
// ---------------------------------------------------------------------------

pub open spec fn is_ascii_digit(c: char) -> bool {
    '0' <= c <= '9'
}

/// The number of ASCII digits at the start of `s`.
pub open spec fn leading_digits(s: Seq<char>) -> nat
    decreases s.len(),
{
    if s.len() > 0 && is_ascii_digit(s[0]) {
        1 + leading_digits(s.drop_first())
    } else {
        0
    }
}

pub open spec fn is_sign(c: char) -> bool {
    c == '+' || c == '-'
}

/// `s` without a leading `+` or `-`.
pub open spec fn without_sign(s: Seq<char>) -> Seq<char> {
    if s.len() > 0 && is_sign(s[0]) {
        s.drop_first()
    } else {
        s
    }
}

/// `c` is the lower-case ASCII letter `lower` in either case.
pub open spec fn same_letter(c: char, lower: char) -> bool {
    c == lower || (c as u32) + 32 == (lower as u32)
}

/// `s` spells the lower-case ASCII word `w`, ignoring ASCII case.
pub open spec fn spells(s: Seq<char>, w: Seq<char>) -> bool {
    s.len() == w.len() && forall|i: int| 0 <= i < s.len() ==> same_letter(s[i], w[i])
}

/// An exponent: `e` or `E`, an optional sign, and at least one digit.
pub open spec fn is_exponent(s: Seq<char>) -> bool {
    let d = without_sign(s.drop_first());
    &&& s.len() >= 2
    &&& (s[0] == 'e' || s[0] == 'E')
    &&& d.len() > 0
    &&& leading_digits(d) == d.len()
}

/// `Digit+`, `Digit+ '.' Digit*` or `Digit* '.' Digit+`, then an optional
/// exponent.
pub open spec fn is_decimal_number(s: Seq<char>) -> bool {
    let k = leading_digits(s) as int;
    if k < s.len() && s[k] == '.' {
        let m = leading_digits(s.skip(k + 1)) as int;
        let rest = s.skip(k + 1 + m);
        k + m >= 1 && (rest.len() == 0 || is_exponent(rest))
    } else {
        let rest = s.skip(k);
        k >= 1 && (rest.len() == 0 || is_exponent(rest))
    }
}

/// The strings that `str::parse::<f64>` accepts: an optional sign followed by
/// `inf`, `infinity` or `nan` in any ASCII case, or by a decimal number.
pub open spec fn is_float_literal(s: Seq<char>) -> bool {
    let b = without_sign(s);
    ||| spells(b, seq!['i', 'n', 'f'])
    ||| spells(b, seq!['i', 'n', 'f', 'i', 'n', 'i', 't', 'y'])
    ||| spells(b, seq!['n', 'a', 'n'])
    ||| is_decimal_number(b)
}

fn leading_digits_exec(v: &Vec<char>, lo: usize) -> (n: usize)
    requires
        lo <= v.len(),
    ensures
        lo + n <= v.len(),
        n == leading_digits(v@.skip(lo as int)),
{
    let mut i = lo;
    while i < v.len() && '0' <= v[i] && v[i] <= '9'
        invariant
            lo <= i <= v.len(),
            leading_digits(v@.skip(lo as int)) == (i - lo) + leading_digits(v@.skip(i as int)),
        decreases v.len() - i,
    {
        assert(v@.skip(i as int).drop_first() == v@.skip(i + 1));
        i = i + 1;
    }
    i - lo
}

fn spells_exec(v: &Vec<char>, lo: usize, w: &Vec<char>) -> (b: bool)
    requires
        lo <= v.len(),
    ensures
        b == spells(v@.skip(lo as int), w@),
{
    if v.len() - lo != w.len() {
        return false;
    }
    let mut i: usize = 0;
    while i < w.len()
        invariant
            lo + w.len() == v.len(),
            i <= w.len(),
            forall|k: int| 0 <= k < i ==> same_letter(v@.skip(lo as int)[k], w@[k]),
        decreases w.len() - i,
    {
        let c = v[lo + i];
        let l = w[i];
        let cu = c as u32;
        let lu = l as u32;
        if !(c == l || (lu >= 32 && cu == lu - 32)) {
            assert(!same_letter(v@.skip(lo as int)[i as int], w@[i as int]));
            return false;
        }
        i = i + 1;
    }
    true
}

fn is_exponent_exec(v: &Vec<char>, lo: usize) -> (b: bool)
    requires
        lo <= v.len(),
    ensures
        b == is_exponent(v@.skip(lo as int)),
{
    let ghost s = v@.skip(lo as int);
    if v.len() - lo < 2 || !(v[lo] == 'e' || v[lo] == 'E') {
        return false;
    }
    let mut d = lo + 1;
    assert(s.drop_first() == v@.skip(d as int));
    if v[d] == '+' || v[d] == '-' {
        assert(v@.skip(d as int).drop_first() == v@.skip(d + 1));
        d = d + 1;
    }
    let n = leading_digits_exec(v, d);
    n > 0 && d + n == v.len()
}

fn is_decimal_number_exec(v: &Vec<char>, lo: usize) -> (b: bool)
    requires
        lo <= v.len(),
    ensures
        b == is_decimal_number(v@.skip(lo as int)),
{
    let ghost s = v@.skip(lo as int);
    let k = leading_digits_exec(v, lo);
    if lo + k < v.len() && v[lo + k] == '.' {
        let m = leading_digits_exec(v, lo + k + 1);
        assert(s.skip(k + 1) == v@.skip(lo + k + 1));
        let rest = lo + k + 1 + m;
        assert(s.skip(k + 1 + m) == v@.skip(rest as int));
        k + m >= 1 && (rest == v.len() || is_exponent_exec(v, rest))
    } else {
        assert(s.skip(k as int) == v@.skip(lo + k));
        k >= 1 && (lo + k == v.len() || is_exponent_exec(v, lo + k))
    }
}

/// Whether `v[lo..]` is a number that `str::parse::<f64>` accepts.
pub fn is_float_literal_exec(v: &Vec<char>, lo: usize) -> (b: bool)
    requires
        lo <= v.len(),
    ensures
        b == is_float_literal(v@.skip(lo as int)),
{
    let ghost s = v@.skip(lo as int);
    let mut start = lo;
    if lo < v.len() && (v[lo] == '+' || v[lo] == '-') {
        start = lo + 1;
        assert(s.drop_first() == v@.skip(start as int));
    }
    assert(without_sign(s) == v@.skip(start as int));
    let inf = chars_of("inf");
    let infinity = chars_of("infinity");
    let nan = chars_of("nan");
    proof {
        reveal_strlit("inf");
        reveal_strlit("infinity");
        reveal_strlit("nan");
        assert(inf@ == seq!['i', 'n', 'f']);
        assert(infinity@ == seq!['i', 'n', 'f', 'i', 'n', 'i', 't', 'y']);
        assert(nan@ == seq!['n', 'a', 'n']);
    }
    spells_exec(v, start, &inf) || spells_exec(v, start, &infinity) || spells_exec(
        v,
        start,
        &nan,
    ) || is_decimal_number_exec(v, start)
}

// ---------------------------------------------------------------------------
// Dimensions
// ---------------------------------------------------------------------------

/// `t` ends with the unit `u` and what precedes the unit is, once trimmed, a
/// number.
pub open spec fn number_with_unit(t: Seq<char>, u: Seq<char>) -> bool {
    ends_with(t, u) && is_float_literal(trim(t.take(t.len() - u.len())))
}

/// A trimmed dimension: a number followed by `in`, `cm`, `mm`, `pt` or `em`.
pub open spec fn is_dimension(t: Seq<char>) -> bool {
    ||| number_with_unit(t, "in"@)
    ||| number_with_unit(t, "cm"@)
    ||| number_with_unit(t, "mm"@)
    ||| number_with_unit(t, "pt"@)
    ||| number_with_unit(t, "em"@)
}

/// The message for a rejected dimension `t` (already trimmed).
pub open spec fn invalid_dimension_message(t: Seq<char>) -> Seq<char> {
    "invalid dimension '"@ + t + "': expected <number><unit> (e.g. 1in, 0.75in, 2cm, 11pt)"@
}

/// Whether the trimmed text `v[lo..hi]` ends with `unit` preceded by a number.
fn number_with_unit_exec(v: &Vec<char>, lo: usize, hi: usize, unit: &Vec<char>) -> (b: bool)
    requires
        lo <= hi <= v.len(),
    ensures
        b == number_with_unit(v@.subrange(lo as int, hi as int), unit@),
{
    let ghost t = v@.subrange(lo as int, hi as int);
    if unit.len() > hi - lo || !matches_at_exec(v, unit, hi - unit.len()) {
        proof {
            if ends_with(t, unit@) {
                assert(t.subrange(t.len() - unit@.len(), t.len() as int) == v@.subrange(
                    hi - unit@.len(),
                    hi as int,
                ));
            }
        }
        return false;
    }
    assert(t.subrange(t.len() - unit@.len(), t.len() as int) == v@.subrange(
        hi - unit@.len(),
        hi as int,
    ));
    let num_end = hi - unit.len();
    let num = copy_range(v, lo, num_end);
    assert(num@ == t.take(t.len() - unit@.len()));
    let ns = trim_start_index(&num, 0);
    assert(num@.subrange(0, num@.len() as int) == num@);
    let ne = trim_end_index(&num, ns, num.len());
    let trimmed = copy_range(&num, ns, ne);
    assert(trimmed@ == trim(num@));
    assert(trimmed@.skip(0) == trimmed@);
    is_float_literal_exec(&trimmed, 0)
}

/// Validates a dimension argument such as `1in` or `0.75in`: a number
/// followed by one of the units `in`, `cm`, `mm`, `pt`, `em`. Surrounding
/// white space is ignored; the trimmed text is returned.
pub fn parse_dimension(s: &str) -> (res: Result<String, String>)
    ensures
        match res {
            Ok(d) => is_dimension(trim(s@)) && d@ == trim(s@),
            Err(e) => !is_dimension(trim(s@)) && e@ == invalid_dimension_message(trim(s@)),
        },
{
    let v = chars_of(s);
    let ts = trim_start_index(&v, 0);
    assert(v@.subrange(0, v.len() as int) == v@);
    let te = trim_end_index(&v, ts, v.len());
    let t = copy_range(&v, ts, te);
    assert(t@ == trim(s@));
    let units = [chars_of("in"), chars_of("cm"), chars_of("mm"), chars_of("pt"), chars_of("em")];
    let mut i: usize = 0;
    while i < 5
        invariant
            i <= 5,
            ts <= te <= v.len(),
            v@.subrange(ts as int, te as int) == trim(s@),
            t@ == trim(s@),
            units@.len() == 5,
            units@[0]@ == "in"@,
            units@[1]@ == "cm"@,
            units@[2]@ == "mm"@,
            units@[3]@ == "pt"@,
            units@[4]@ == "em"@,
            forall|k: int| 0 <= k < i ==> !number_with_unit(trim(s@), #[trigger] units@[k]@),
        decreases 5 - i,
    {
        if number_with_unit_exec(&v, ts, te, &units[i]) {
            assert(i == 0 || i == 1 || i == 2 || i == 3 || i == 4);
            assert(is_dimension(trim(s@)));
            return Ok(string_of(&t));
        }
        i = i + 1;
    }
    assert(!number_with_unit(trim(s@), units@[0]@));
    assert(!number_with_unit(trim(s@), units@[1]@));
    assert(!number_with_unit(trim(s@), units@[2]@));
    assert(!number_with_unit(trim(s@), units@[3]@));
    assert(!number_with_unit(trim(s@), units@[4]@));
    let mut msg = chars_of("invalid dimension '");
    append_chars(&mut msg, &t);
    append_chars(&mut msg, &chars_of("': expected <number><unit> (e.g. 1in, 0.75in, 2cm, 11pt)"));
    Err(string_of(&msg))
}

// ---------------------------------------------------------------------------
// Laws
// ---------------------------------------------------------------------------

/// Trimming is idempotent.
proof fn lemma_trim_idempotent(s: Seq<char>)
    ensures
        trim(trim(s)) == trim(s),
{
    lemma_trim_start_of_trimmed(s);
    lemma_trim_end_idempotent(trim_start(s));
}

proof fn lemma_trim_end_idempotent(s: Seq<char>)
    ensures
        trim_end(trim_end(s)) == trim_end(s),
    decreases s.len(),
{
    if s.len() > 0 && is_white_space(s.last()) {
        lemma_trim_end_idempotent(s.drop_last());
    }
}

/// After `trim_start`, trimming the end cannot expose white space at the front.
proof fn lemma_trim_start_of_trimmed(s: Seq<char>)
    ensures
        trim_start(trim(s)) == trim(s),
{
    let a = trim_start(s);
    lemma_trim_start_clean(s);
    lemma_trim_end_keeps_clean_front(a);
}

/// Removing trailing white space from text whose first character is not white
/// space keeps that first character (or leaves nothing).
proof fn lemma_trim_start_clean(s: Seq<char>)
    ensures
        trim_start(s).len() == 0 || !is_white_space(trim_start(s)[0]),
    decreases s.len(),
{
    if s.len() > 0 && is_white_space(s[0]) {
        lemma_trim_start_clean(s.drop_first());
    }
}

proof fn lemma_trim_end_keeps_clean_front(a: Seq<char>)
    requires
        a.len() == 0 || !is_white_space(a[0]),
    ensures
        trim_start(trim_end(a)) == trim_end(a),
    decreases a.len(),
{
    if a.len() > 0 && is_white_space(a.last()) {
        let b = a.drop_last();
        if b.len() > 0 {
            assert(b[0] == a[0]);
        }
        lemma_trim_end_keeps_clean_front(b);
    }
}

/// A dimension that was accepted is accepted again, unchanged.
pub proof fn accepted_dimension_is_stable(s: Seq<char>)
    requires
        is_dimension(trim(s)),
    ensures
        trim(trim(s)) == trim(s),
        is_dimension(trim(trim(s))),
{
    lemma_trim_idempotent(s);
}

} // verus!
