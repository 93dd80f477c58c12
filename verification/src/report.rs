//! The outcome of rendering one document, and its human-readable summary.

use std::time::{Duration, Instant};

use vstd::prelude::*;

use crate::text::{
    append_chars, chars_of, decimal, decimal_exec, lines, lines_exec, string_of, views,
};

verus! {

broadcast use vstd::string::group_string_axioms;

/// `std::time::Instant`, carried through opaquely.
#[verifier::external_type_specification]
#[verifier::external_body]
pub struct ExInstant(Instant);

/// `Instant::elapsed`: the time that has passed since `start`. Nothing is
/// stated of the value, which depends on the clock.
#[verifier::external_body]
fn time_since(start: &Instant) -> (d: Duration) {
    start.elapsed()
}

/// `Duration::as_millis`: the whole milliseconds in `d`. The value is not
/// stated, as `Duration` is opaque here.
#[verifier::external_body]
fn whole_millis(d: &Duration) -> (ms: u128) {
    d.as_millis()
}

/// A millisecond count clamped to what a `u64` can hold.
pub fn saturating_millis(ms: u128) -> (r: u64)
    ensures
        ms <= u64::MAX ==> r == ms,
        ms > u64::MAX ==> r == u64::MAX,
{
    if ms <= u64::MAX as u128 {
        ms as u64
    } else {
        u64::MAX
    }
}

/// The milliseconds that have passed since `start`, saturating at `u64::MAX`.
fn elapsed_ms(start: &Instant) -> u64 {
    saturating_millis(whole_millis(&time_since(start)))
}

/// The outcome of rendering a single file (or standard input).
#[derive(Debug)]
pub struct RenderResult {
    pub input: String,
    pub output: String,
    pub success: bool,
    pub time_ms: u64,
    pub error: Option<String>,
    pub warnings: Vec<String>,
}

/// A result under construction: where it reads from and writes to, when the
/// work started and the warnings collected so far.
pub struct RenderResultBuilder<'a> {
    input: String,
    output: String,
    start: &'a Instant,
    warnings: Vec<String>,
}

impl RenderResult {
    /// Starts building a result for the given input/output pair.
    pub fn builder<'a>(input: &str, output: &str, start: &'a Instant) -> (b: RenderResultBuilder<'a>)
        ensures
            b.input_text() == input@,
            b.output_text() == output@,
            b.pending_warnings().len() == 0,
            b.start_time() == start,
    {
        RenderResultBuilder {
            input: string_of(&chars_of(input)),
            output: string_of(&chars_of(output)),
            start,
            warnings: Vec::new(),
        }
    }

    /// Whether the render succeeded.
    pub fn success(&self) -> (b: bool)
        ensures
            b == self.success,
    {
        self.success
    }

    /// The error, for a failed render.
    pub fn error(&self) -> (e: Option<&String>)
        ensures
            e == (match &self.error {
                Some(s) => Some(s),
                None => None::<&String>,
            }),
    {
        match &self.error {
            Some(s) => Some(s),
            None => None,
        }
    }
}

impl<'a> RenderResultBuilder<'a> {
    pub closed spec fn input_text(&self) -> Seq<char> {
        self.input@
    }

    pub closed spec fn output_text(&self) -> Seq<char> {
        self.output@
    }

    pub closed spec fn pending_warnings(&self) -> Seq<String> {
        self.warnings@
    }

    pub closed spec fn start_time(&self) -> &'a Instant {
        self.start
    }

    /// Sets the warnings that the result will carry.
    pub fn warnings(self, warnings: Vec<String>) -> (b: Self)
        ensures
            b.input_text() == self.input_text(),
            b.output_text() == self.output_text(),
            b.pending_warnings() == warnings@,
            b.start_time() == self.start_time(),
    {
        RenderResultBuilder { warnings, ..self }
    }

    /// The result, given the time it took and the error if it failed.
    fn finish(self, time_ms: u64, error: Option<String>) -> (r: RenderResult)
        ensures
            r.input@ == self.input_text(),
            r.output@ == self.output_text(),
            r.warnings@ == self.pending_warnings(),
            r.success == (error is None),
            r.error == error,
            r.time_ms == time_ms,
    {
        RenderResult {
            input: self.input,
            output: self.output,
            success: error.is_none(),
            time_ms,
            error,
            warnings: self.warnings,
        }
    }

    /// A successful result, timed from the builder's start.
    pub fn ok(self) -> (r: RenderResult)
        ensures
            r.input@ == self.input_text(),
            r.output@ == self.output_text(),
            r.warnings@ == self.pending_warnings(),
            r.success,
            r.error is None,
    {
        let time_ms = elapsed_ms(self.start);
        self.finish(time_ms, None)
    }

    /// A failed result carrying `error`, timed from the builder's start.
    pub fn fail(self, error: &str) -> (r: RenderResult)
        ensures
            r.input@ == self.input_text(),
            r.output@ == self.output_text(),
            r.warnings@ == self.pending_warnings(),
            !r.success,
            r.error matches Some(e) && e@ == error@,
    {
        let time_ms = elapsed_ms(self.start);
        self.finish(time_ms, Some(string_of(&chars_of(error))))
    }
}

// ---------------------------------------------------------------------------
// Human-readable summary
// ---------------------------------------------------------------------------

/// A detail line, indented under its heading.
pub open spec fn detail(l: Seq<char>) -> Seq<char> {
    "    "@ + l
}

/// At most the first ten lines of an error message.
pub open spec fn error_excerpt(e: Seq<char>) -> Seq<Seq<char>> {
    let ls = lines(e);
    ls.take(if ls.len() < 10 { ls.len() as int } else { 10 })
}

/// The summary of a result, one entry per line: `  ok: <output> (<ms>ms)`
/// on success; `  FAIL: <input>` followed by the first ten lines of the error,
/// indented, on failure; then, if there are warnings, `  warnings:` and each
/// warning, indented.
pub open spec fn human_report(r: RenderResult) -> Seq<Seq<char>> {
    let head = if r.success {
        seq!["  ok: "@ + r.output@ + " ("@ + decimal(r.time_ms as nat) + "ms)"@]
    } else {
        seq!["  FAIL: "@ + r.input@] + match r.error {
            Some(e) => error_excerpt(e@).map_values(|l: Seq<char>| detail(l)),
            None => Seq::<Seq<char>>::empty(),
        }
    };
    let tail = if r.warnings@.len() == 0 {
        Seq::<Seq<char>>::empty()
    } else {
        seq!["  warnings:"@] + views(r.warnings@).map_values(|w: Seq<char>| detail(w))
    };
    head + tail
}

/// `"    " + l` as a string.
fn detail_exec(l: &Vec<char>) -> (s: String)
    ensures
        s@ == detail(l@),
{
    let mut v = chars_of("    ");
    append_chars(&mut v, l);
    string_of(&v)
}

impl RenderResult {
    /// The lines of the human-readable summary of this result (see
    /// [`human_report`]), to be written to standard error.
    pub fn human_lines(&self) -> (out: Vec<String>)
        ensures
            views(out@) == human_report(*self),
    {
        let mut out: Vec<String> = Vec::new();
        if self.success {
            let mut v = chars_of("  ok: ");
            append_chars(&mut v, &chars_of(self.output.as_str()));
            append_chars(&mut v, &chars_of(" ("));
            append_chars(&mut v, &decimal_exec(self.time_ms as u128));
            append_chars(&mut v, &chars_of("ms)"));
            out.push(string_of(&v));
            assert(views(out@) == seq![v@]);
        } else {
            let mut v = chars_of("  FAIL: ");
            append_chars(&mut v, &chars_of(self.input.as_str()));
            out.push(string_of(&v));
            assert(views(out@) == seq![v@]);
            match &self.error {
                Some(e) => {
                    let ls = lines_exec(&chars_of(e.as_str()));
                    let ghost excerpt = error_excerpt(e@);
                    let n = if ls.len() < 10 { ls.len() } else { 10 };
                    let mut i: usize = 0;
                    while i < n
                        invariant
                            i <= n <= ls.len(),
                            ls@.map_values(|l: Vec<char>| l@) == lines(e@),
                            excerpt == lines(e@).take(n as int),
                            views(out@) == seq![v@] + excerpt.take(i as int).map_values(
                                |l: Seq<char>| detail(l),
                            ),
                        decreases n - i,
                    {
                        let ghost before = views(out@);
                        out.push(detail_exec(&ls[i]));
                        assert(views(out@) == before.push(detail(ls@[i as int]@)));
                        assert(excerpt.take(i + 1).map_values(|l: Seq<char>| detail(l)) == excerpt.take(
                            i as int,
                        ).map_values(|l: Seq<char>| detail(l)).push(detail(excerpt[i as int])));
                        i = i + 1;
                    }
                    assert(excerpt.take(n as int) == excerpt);
                },
                None => {},
            }
        }
        let ghost head = views(out@);
        assert(head == human_report(*self).take(head.len() as int)) by {
            assert(head + Seq::<Seq<char>>::empty() == head);
        }
        if self.warnings.len() > 0 {
            out.push(string_of(&chars_of("  warnings:")));
            let mut i: usize = 0;
            while i < self.warnings.len()
                invariant
                    i <= self.warnings.len(),
                    views(out@) == head + seq!["  warnings:"@] + views(self.warnings@).take(
                        i as int,
                    ).map_values(|w: Seq<char>| detail(w)),
                decreases self.warnings.len() - i,
            {
                let ghost before = views(out@);
                out.push(detail_exec(&chars_of(self.warnings[i].as_str())));
                assert(views(out@) == before.push(detail(self.warnings@[i as int]@)));
                assert(views(self.warnings@).take(i + 1).map_values(|w: Seq<char>| detail(w))
                    == views(self.warnings@).take(i as int).map_values(
                    |w: Seq<char>| detail(w),
                ).push(detail(self.warnings@[i as int]@)));
                i = i + 1;
            }
            assert(views(self.warnings@).take(self.warnings.len() as int) == views(
                self.warnings@,
            ));
        }
        out
    }
}

} // verus!
