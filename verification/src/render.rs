//! Preparation of a markdown document for typesetting: front-matter removal,
//! symbol fixes, output naming, the template inputs and the dry-run view.

use vstd::prelude::*;

use crate::cli::Cli;
use crate::template::TEMPLATE;
use crate::text::{
    append_chars, bool_text, bool_text_exec, chars_of, contains, copy_range, decimal, decimal_exec,
    ends_with, is_white_space, join, join_exec, matches_at, matches_at_exec, replace_all,
    replace_all_exec, starts_with, string_of, trim_start, trim_start_index, utf8_len, utf8_len_exec,
    views,
};

verus! {

broadcast use vstd::string::group_string_axioms;

// ---------------------------------------------------------------------------
// Front matter
// ---------------------------------------------------------------------------

/// The delimiter that opens a front-matter block: `---`.
pub open spec fn fence() -> Seq<char> {
    seq!['-', '-', '-']
}

/// The start of the line that closes a front-matter block: a line break
/// followed by `---`.
pub open spec fn closing_fence() -> Seq<char> {
    seq!['\n', '-', '-', '-']
}

/// What follows a closing `---` when that `---` is the whole line: nothing
/// (the end of the text), a line break, or a carriage return that ends the
/// text or comes before a line break.
pub open spec fn ends_line(r: Seq<char>) -> bool {
    ||| r.len() == 0
    ||| r[0] == '\n'
    ||| r[0] == '\r' && (r.len() == 1 || r[1] == '\n')
}

/// A line that is exactly `---` (with an optional `\r`) starts at index
/// `i + 1` of `s`, after the line break at `i`.
pub open spec fn closes_at(s: Seq<char>, i: int) -> bool {
    matches_at(s, closing_fence(), i) && ends_line(s.skip(i + 4))
}

/// The first index at or after `i` where a closing `---` line starts
/// (counting from its preceding line break).
pub open spec fn first_close_from(s: Seq<char>, i: int) -> Option<int>
    decreases s.len() + 1 - i,
{
    if i < 0 || i + 4 > s.len() {
        None
    } else if closes_at(s, i) {
        Some(i)
    } else {
        first_close_from(s, i + 1)
    }
}

/// The document body once a leading `---`-delimited YAML block is removed.
///
/// The block must start the document (after leading white space) and be
/// closed by a later line that is exactly `---` (a `\r` before its line break
/// is allowed); the line break that directly follows the closing `---` is
/// removed as well. Without both delimiters the content is returned
/// unchanged.
pub open spec fn strip_front_matter_spec(content: Seq<char>) -> Seq<char> {
    let t = trim_start(content);
    if !starts_with(t, fence()) {
        content
    } else {
        let after = t.skip(3);
        match first_close_from(after, 0) {
            None => content,
            Some(i) => {
                let rest = after.skip(i + 4);
                if rest.len() > 0 && rest[0] == '\n' {
                    rest.drop_first()
                } else {
                    rest
                }
            },
        }
    }
}

/// A close found by `first_close_from` lies in the searched range.
proof fn lemma_first_close_bounds(s: Seq<char>, j: int)
    ensures
        first_close_from(s, j) matches Some(k) ==> j <= k && k + 4 <= s.len() && closes_at(s, k),
    decreases s.len() + 1 - j,
{
    if j >= 0 && j + 4 <= s.len() && !closes_at(s, j) {
        lemma_first_close_bounds(s, j + 1);
    }
}

/// `first_close_from` returns the first close at or after `j`.
proof fn lemma_first_close_is_first(s: Seq<char>, j: int, k: int)
    requires
        0 <= j <= k,
        closes_at(s, k),
        forall|i: int| j <= i < k ==> !closes_at(s, i),
    ensures
        first_close_from(s, j) == Some(k),
    decreases k - j,
{
    if j < k {
        lemma_first_close_is_first(s, j + 1, k);
    }
}

/// `trim_start` removes a prefix: what it leaves is a suffix of `s`.
proof fn lemma_trim_start_is_suffix(s: Seq<char>)
    ensures
        trim_start(s).len() <= s.len(),
        trim_start(s) == s.skip(s.len() - trim_start(s).len()),
    decreases s.len(),
{
    if s.len() > 0 && is_white_space(s[0]) {
        lemma_trim_start_is_suffix(s.drop_first());
        assert(s.drop_first().skip(s.drop_first().len() - trim_start(s).len()) == s.skip(
            s.len() - trim_start(s).len(),
        ));
    } else {
        assert(s.skip(0) == s);
    }
}

/// Removes a YAML front-matter block (a `---`-delimited block at the start of
/// the document).
pub fn strip_front_matter(content: &str) -> (res: String)
    ensures
        res@ == strip_front_matter_spec(content@),
{
    let v = chars_of(content);
    let dashes = chars_of("---");
    let closing = chars_of("\n---");
    proof {
        reveal_strlit("---");
        reveal_strlit("\n---");
        assert(dashes@ == fence());
        assert(closing@ == closing_fence());
    }
    let ts = trim_start_index(&v, 0);
    assert(v@.subrange(0, v.len() as int) == v@);
    let ghost t = trim_start(v@);
    if !matches_at_exec(&v, &dashes, ts) {
        proof {
            if starts_with(t, fence()) {
                assert(v@.subrange(ts as int, ts + 3) == t.subrange(0, 3));
            }
        }
        return string_of(&v);
    }
    assert(t.subrange(0, 3) == v@.subrange(ts as int, ts + 3));
    let body = ts + 3;
    let ghost after = t.skip(3);
    assert(after == v@.skip(body as int));
    assert(starts_with(t, fence()));
    let mut pos = body;
    while pos <= v.len() && 4 <= v.len() - pos
        invariant
            v@ == content@,
            t == trim_start(v@),
            starts_with(t, fence()),
            after == t.skip(3),
            body <= pos,
            body <= v.len(),
            after == v@.skip(body as int),
            closing@ == closing_fence(),
            first_close_from(after, (pos - body) as int) == first_close_from(after, 0),
        decreases v.len() - pos,
    {
        let ghost i = pos - body;
        assert(after.subrange(i, i + 4) == v@.subrange(pos as int, pos + 4));
        assert(after.skip(i + 4) == v@.skip(pos + 4));
        let end = pos + 4;
        if matches_at_exec(&v, &closing, pos) && (end == v.len() || v[end] == '\n' || (v[end]
            == '\r' && (end + 1 == v.len() || v[end + 1] == '\n'))) {
            assert(closes_at(after, i));
            assert(first_close_from(after, i) == Some(i));
            assert(first_close_from(after, 0) == Some(i));
            let ghost rest = after.skip(i + 4);
            assert(rest == v@.subrange(end as int, v.len() as int));
            assert(strip_front_matter_spec(content@) == (if rest.len() > 0 && rest[0] == '\n' {
                rest.drop_first()
            } else {
                rest
            }));
            if end < v.len() && v[end] == '\n' {
                assert(rest.drop_first() == v@.subrange(end + 1, v.len() as int));
                return string_of(&copy_range(&v, end + 1, v.len()));
            } else {
                return string_of(&copy_range(&v, end, v.len()));
            }
        }
        assert(!closes_at(after, i));
        pos = pos + 1;
    }
    assert(first_close_from(after, (pos - body) as int) is None);
    string_of(&v)
}

// ---------------------------------------------------------------------------
// Math symbol fixes
// ---------------------------------------------------------------------------

/// The LaTeX command `\dashrightarrow`.
pub open spec fn dash_right_command() -> Seq<char> {
    seq!['\\', 'd', 'a', 's', 'h', 'r', 'i', 'g', 'h', 't', 'a', 'r', 'r', 'o', 'w']
}

/// The LaTeX command `\dashleftarrow`.
pub open spec fn dash_left_command() -> Seq<char> {
    seq!['\\', 'd', 'a', 's', 'h', 'l', 'e', 'f', 't', 'a', 'r', 'r', 'o', 'w']
}

/// The content with `\dashrightarrow` replaced by U+21E2 and then
/// `\dashleftarrow` replaced by U+21E0.
pub open spec fn fix_mitex_symbols_spec(content: Seq<char>) -> Seq<char> {
    replace_all(
        replace_all(content, dash_right_command(), seq!['\u{21E2}']),
        dash_left_command(),
        seq!['\u{21E0}'],
    )
}

/// Replaces the LaTeX dashed-arrow commands, whose math mapping in the
/// renderer is broken, by the Unicode arrows they stand for.
pub fn fix_mitex_symbols(content: &str) -> (res: String)
    ensures
        res@ == fix_mitex_symbols_spec(content@),
{
    let v = chars_of(content);
    let right = chars_of("\\dashrightarrow");
    let left = chars_of("\\dashleftarrow");
    let right_arrow = chars_of("\u{21E2}");
    let left_arrow = chars_of("\u{21E0}");
    proof {
        reveal_strlit("\\dashrightarrow");
        reveal_strlit("\\dashleftarrow");
        reveal_strlit("\u{21E2}");
        reveal_strlit("\u{21E0}");
        assert(right@ == dash_right_command());
        assert(left@ == dash_left_command());
        assert(right_arrow@ == seq!['\u{21E2}']);
        assert(left_arrow@ == seq!['\u{21E0}']);
    }
    let once = replace_all_exec(&v, &right, &right_arrow);
    let twice = replace_all_exec(&once, &left, &left_arrow);
    string_of(&twice)
}

// ---------------------------------------------------------------------------
// Output naming
// ---------------------------------------------------------------------------

/// The start of the path segment that ends at `end`: just after the closest
/// `/` before `end`, or the start of the path.
pub open spec fn segment_start(p: Seq<char>, end: int) -> int
    decreases end,
{
    if end <= 0 || p[end - 1] == '/' {
        end
    } else {
        segment_start(p, end - 1)
    }
}

/// The index range of the path's file name within `p[..end]`: its last
/// component once trailing `/` and `.` components are passed over; `None`
/// when that component is the root, `.` or `..`, or there is none.
pub open spec fn file_name_range(p: Seq<char>, end: int) -> Option<(int, int)>
    decreases end,
{
    if end <= 0 || end > p.len() {
        None
    } else if p[end - 1] == '/' {
        file_name_range(p, end - 1)
    } else {
        let start = segment_start(p, end);
        if end - start == 1 && p[start] == '.' {
            file_name_range(p, start)
        } else if end - start == 2 && p[start] == '.' && p[start + 1] == '.' {
            None
        } else {
            Some((start, end))
        }
    }
}

/// The index of the last `.` in `p[start..end]`, if any.
pub open spec fn last_dot(p: Seq<char>, start: int, end: int) -> Option<int>
    decreases end - start,
{
    if end <= start {
        None
    } else if p[end - 1] == '.' {
        Some(end - 1)
    } else {
        last_dot(p, start, end - 1)
    }
}

/// Where the file stem of the name `p[start..end]` ends: at its last `.`,
/// unless that dot opens the name (a name such as `.bashrc` is all stem).
pub open spec fn stem_end(p: Seq<char>, start: int, end: int) -> int {
    match last_dot(p, start, end) {
        Some(d) if d > start => d,
        _ => end,
    }
}

/// The suffix `.pdf`.
pub open spec fn pdf_suffix() -> Seq<char> {
    seq!['.', 'p', 'd', 'f']
}

/// The path with its extension set to `pdf` (`Path::with_extension` on Unix):
/// everything after the file stem is replaced by `.pdf`; a path without a
/// file name is returned unchanged.
pub open spec fn with_pdf_extension(p: Seq<char>) -> Seq<char> {
    match file_name_range(p, p.len() as int) {
        None => p,
        Some((start, end)) => p.take(stem_end(p, start, end)) + pdf_suffix(),
    }
}

proof fn lemma_segment_start_bounds(p: Seq<char>, end: int)
    ensures
        end >= 0 ==> 0 <= segment_start(p, end) <= end,
    decreases end,
{
    if end > 0 && p[end - 1] != '/' {
        lemma_segment_start_bounds(p, end - 1);
    }
}

fn segment_start_exec(v: &Vec<char>, end: usize) -> (s: usize)
    requires
        end <= v.len(),
    ensures
        s == segment_start(v@, end as int),
        s <= end,
{
    let mut i = end;
    while i > 0 && v[i - 1] != '/'
        invariant
            i <= end <= v.len(),
            segment_start(v@, i as int) == segment_start(v@, end as int),
        decreases i,
    {
        i = i - 1;
    }
    i
}

fn file_name_range_exec(v: &Vec<char>) -> (r: Option<(usize, usize)>)
    ensures
        match r {
            Some((s, e)) => s < e <= v.len() && file_name_range(v@, v.len() as int) == Some(
                (s as int, e as int),
            ),
            None => file_name_range(v@, v.len() as int) is None,
        },
{
    let mut end = v.len();
    loop
        invariant
            end <= v.len(),
            file_name_range(v@, end as int) == file_name_range(v@, v.len() as int),
        decreases end,
    {
        if end == 0 {
            return None;
        }
        if v[end - 1] == '/' {
            end = end - 1;
        } else {
            let start = segment_start_exec(v, end);
            proof {
                lemma_segment_start_bounds(v@, end - 1);
            }
            if end - start == 1 && v[start] == '.' {
                end = start;
            } else if end - start == 2 && v[start] == '.' && v[start + 1] == '.' {
                return None;
            } else {
                return Some((start, end));
            }
        }
    }
}

fn stem_end_exec(v: &Vec<char>, start: usize, end: usize) -> (r: usize)
    requires
        start <= end <= v.len(),
    ensures
        r == stem_end(v@, start as int, end as int),
        r <= end,
{
    let mut i = end;
    while i > start && v[i - 1] != '.'
        invariant
            start <= i <= end <= v.len(),
            last_dot(v@, start as int, i as int) == last_dot(v@, start as int, end as int),
        decreases i,
    {
        i = i - 1;
    }
    if i > start && i - 1 > start {
        i - 1
    } else {
        end
    }
}

/// Replaces the input file's extension with `.pdf`.
pub fn default_output_path(input: &str) -> (res: String)
    ensures
        res@ == with_pdf_extension(input@),
{
    let v = chars_of(input);
    match file_name_range_exec(&v) {
        None => string_of(&v),
        Some((start, end)) => {
            let stem = stem_end_exec(&v, start, end);
            let mut out = copy_range(&v, 0, stem);
            let suffix = chars_of(".pdf");
            proof {
                reveal_strlit(".pdf");
                assert(suffix@ == pdf_suffix());
            }
            append_chars(&mut out, &suffix);
            string_of(&out)
        },
    }
}

// ---------------------------------------------------------------------------
// Template inputs and source
// ---------------------------------------------------------------------------

/// The markdown that reaches the template: front matter removed, then the
/// dashed-arrow commands fixed.
pub open spec fn prepared_content(content: Seq<char>) -> Seq<char> {
    fix_mitex_symbols_spec(strip_front_matter_spec(content))
}

/// The `sys.inputs` entries handed to the template, in order.
pub open spec fn compile_inputs_spec(content: Seq<char>, cli: Cli) -> Seq<(Seq<char>, Seq<char>)> {
    seq![
        ("content"@, prepared_content(content)),
        ("margin"@, cli.margin@),
        ("font-size"@, cli.font_size@),
        ("toc"@, bool_text(cli.toc)),
        ("number-sections"@, bool_text(cli.number_sections)),
    ]
}

/// The character views of key/value pairs.
pub open spec fn pair_views(v: Seq<(String, String)>) -> Seq<(Seq<char>, Seq<char>)> {
    v.map_values(|p: (String, String)| (p.0@, p.1@))
}

fn entry(key: &str, value: &Vec<char>) -> (p: (String, String))
    ensures
        p.0@ == key@,
        p.1@ == value@,
{
    (string_of(&chars_of(key)), string_of(value))
}

/// The template inputs for a document: its prepared content and the layout
/// settings, flags written as `true`/`false`.
pub fn compile_inputs(content: &str, cli: &Cli) -> (inputs: Vec<(String, String)>)
    ensures
        pair_views(inputs@) == compile_inputs_spec(content@, *cli),
{
    let stripped = strip_front_matter(content);
    let fixed = fix_mitex_symbols(stripped.as_str());
    let mut inputs: Vec<(String, String)> = Vec::new();
    inputs.push(entry("content", &chars_of(fixed.as_str())));
    inputs.push(entry("margin", &chars_of(cli.margin.as_str())));
    inputs.push(entry("font-size", &chars_of(cli.font_size.as_str())));
    inputs.push(entry("toc", &bool_text_exec(cli.toc)));
    inputs.push(entry("number-sections", &bool_text_exec(cli.number_sections)));
    assert(pair_views(inputs@) == compile_inputs_spec(content@, *cli));
    inputs
}

/// The main typst source: the preamble text, if any, on lines of its own
/// before the template.
pub open spec fn full_template_spec(preamble: Option<Seq<char>>) -> Seq<char> {
    match preamble {
        Some(extra) => extra + "\n"@ + TEMPLATE@,
        None => TEMPLATE@,
    }
}

/// Builds the main typst source from the optional preamble text.
pub fn full_template(preamble: Option<&str>) -> (src: String)
    ensures
        src@ == full_template_spec(
            match preamble {
                Some(p) => Some(p@),
                None => None,
            },
        ),
{
    match preamble {
        Some(extra) => {
            let mut v = chars_of(extra);
            append_chars(&mut v, &chars_of("\n"));
            append_chars(&mut v, &chars_of(TEMPLATE));
            string_of(&v)
        },
        None => string_of(&chars_of(TEMPLATE)),
    }
}

// ---------------------------------------------------------------------------
// Dry run
// ---------------------------------------------------------------------------

/// The lines of the dry-run view: a commented summary of `sys.inputs` (the
/// content shown by its size in bytes after front-matter removal), then the
/// preamble path and text when a preamble is configured (the text only if it
/// could be read), then the template.
pub open spec fn dry_run_parts(content: Seq<char>, cli: Cli, preamble: Option<Seq<char>>) -> Seq<
    Seq<char>,
> {
    let body = strip_front_matter_spec(content);
    let summary = seq![
        "// sys.inputs:"@,
        "//   content: <"@ + decimal(utf8_len(body)) + " bytes>"@,
        "//   font-size: "@ + cli.font_size@,
        "//   margin: "@ + cli.margin@,
        "//   number-sections: "@ + bool_text(cli.number_sections),
        "//   toc: "@ + bool_text(cli.toc),
        ""@,
    ];
    let pre = match cli.include_preamble {
        Some(path) => seq!["// preamble: "@ + path@] + match preamble {
            Some(extra) => seq![extra, ""@],
            None => Seq::<Seq<char>>::empty(),
        },
        None => Seq::<Seq<char>>::empty(),
    };
    summary + pre + seq![TEMPLATE@]
}

fn push_line(parts: &mut Vec<String>, v: &Vec<char>)
    ensures
        views(final(parts)@) == views(old(parts)@).push(v@),
{
    let ghost before = views(parts@);
    parts.push(string_of(v));
    assert(views(parts@) == before.push(v@));
}

fn labelled(label: &str, value: &Vec<char>) -> (v: Vec<char>)
    ensures
        v@ == label@ + value@,
{
    let mut v = chars_of(label);
    append_chars(&mut v, value);
    v
}

/// The typst source that would be compiled, prefixed with a `sys.inputs`
/// summary; `preamble` is the text of the configured preamble file if it
/// could be read.
pub fn format_dry_run(content: &str, cli: &Cli, preamble: Option<&str>) -> (out: String)
    ensures
        out@ == join(
            dry_run_parts(
                content@,
                *cli,
                match preamble {
                    Some(p) => Some(p@),
                    None => None,
                },
            ),
            seq!['\n'],
        ),
{
    let body = chars_of(strip_front_matter(content).as_str());
    let ghost pre_view = match preamble {
        Some(p) => Some(p@),
        None => None,
    };
    let ghost expected = dry_run_parts(content@, *cli, pre_view);
    proof {
        reveal_strlit("");
    }
    let mut parts: Vec<String> = Vec::new();
    push_line(&mut parts, &chars_of("// sys.inputs:"));
    let mut size = labelled("//   content: <", &decimal_exec(utf8_len_exec(&body)));
    append_chars(&mut size, &chars_of(" bytes>"));
    push_line(&mut parts, &size);
    push_line(&mut parts, &labelled("//   font-size: ", &chars_of(cli.font_size.as_str())));
    push_line(&mut parts, &labelled("//   margin: ", &chars_of(cli.margin.as_str())));
    push_line(&mut parts, &labelled("//   number-sections: ", &bool_text_exec(cli.number_sections)));
    push_line(&mut parts, &labelled("//   toc: ", &bool_text_exec(cli.toc)));
    push_line(&mut parts, &Vec::new());
    let ghost summary = views(parts@);
    assert(summary.len() == 7);
    assert(expected.len() >= 8);
    assert(summary[0] == expected[0]);
    assert(summary[1] == expected[1]);
    assert(summary[2] == expected[2]);
    assert(summary[3] == expected[3]);
    assert(summary[4] == expected[4]);
    assert(summary[5] == expected[5]);
    assert(summary[6] == expected[6]);
    assert(summary =~= expected.take(7));
    match &cli.include_preamble {
        Some(path) => {
            push_line(&mut parts, &labelled("// preamble: ", &chars_of(path.as_str())));
            match preamble {
                Some(extra) => {
                    push_line(&mut parts, &chars_of(extra));
                    push_line(&mut parts, &Vec::new());
                },
                None => {},
            }
        },
        None => {},
    }
    let ghost with_pre = views(parts@);
    assert(with_pre =~= expected.drop_last());
    push_line(&mut parts, &chars_of(TEMPLATE));
    assert(views(parts@) =~= expected);
    let mut nl: Vec<char> = Vec::new();
    nl.push('\n');
    string_of(&join_exec(&parts, &nl))
}

// ---------------------------------------------------------------------------
// Laws
// ---------------------------------------------------------------------------

/// Removing front matter never adds or rewrites text: the result is always a
/// suffix of the original content.
#[verifier::spinoff_prover]
#[verifier::rlimit(40)]
pub proof fn front_matter_removal_yields_a_suffix(content: Seq<char>)
    ensures
        strip_front_matter_spec(content).len() <= content.len(),
        strip_front_matter_spec(content) == content.skip(
            content.len() - strip_front_matter_spec(content).len(),
        ),
{
    let t = trim_start(content);
    lemma_trim_start_is_suffix(content);
    let off = content.len() - t.len();
    assert(content.skip(0) == content);
    if starts_with(t, fence()) {
        let after = t.skip(3);
        assert(after == content.skip(off + 3));
        lemma_first_close_bounds(after, 0);
        if let Some(i) = first_close_from(after, 0) {
            let rest = after.skip(i + 4);
            assert(rest == content.skip(off + 3 + i + 4));
            if rest.len() > 0 && rest[0] == '\n' {
                assert(rest.drop_first() == content.skip(off + 3 + i + 5));
            }
        }
    }
}

/// A front-matter block is removed exactly: for a document made of `---`,
/// a block `yaml` none of whose lines is a closing `---` line, a closing line
/// that is exactly `---`, and a body, what remains is the body.
#[verifier::spinoff_prover]
#[verifier::rlimit(40)]
pub proof fn front_matter_block_is_removed_exactly(yaml: Seq<char>, body: Seq<char>)
    requires
        forall|i: int| 0 <= i < yaml.len() ==> !closes_at(#[trigger] (yaml + seq!['\n']), i),
    ensures
        strip_front_matter_spec(fence() + yaml + closing_fence() + seq!['\n'] + body) == body,
{
    let content = fence() + yaml + closing_fence() + seq!['\n'] + body;
    assert(trim_start(content) == content);
    assert(starts_with(content, fence())) by {
        assert(content.subrange(0, 3) =~= fence());
    }
    let after = content.skip(3);
    assert(after =~= yaml + closing_fence() + seq!['\n'] + body);
    let n = yaml.len() as int;
    let y = yaml + seq!['\n'];
    assert(after.subrange(n, n + 4) =~= closing_fence());
    assert forall|i: int| 0 <= i < n implies !closes_at(after, i) by {
        if closes_at(after, i) {
            if i + 4 <= n {
                assert(y.subrange(i, i + 4) =~= after.subrange(i, i + 4));
                let ra = after.skip(i + 4);
                let ry = y.skip(i + 4);
                assert(ry[0] == ra[0]);
                if i + 5 <= n {
                    assert(ry[1] == ra[1]);
                }
                assert(closes_at(y, i));
            } else {
                let j = n - i;
                assert(after.subrange(i, i + 4)[j] == after[n]);
                assert(closing_fence()[j] == '\n');
            }
        }
    }
    assert(after.skip(n + 4) =~= seq!['\n'] + body);
    assert(closes_at(after, n));
    lemma_first_close_is_first(after, 0, n);
    assert((seq!['\n'] + body).drop_first() =~= body);
}

/// Text that does not open with a `---` fence (after leading white space)
/// passes through front-matter removal unchanged.
pub proof fn text_without_opening_fence_is_unchanged(content: Seq<char>)
    requires
        !starts_with(trim_start(content), fence()),
    ensures
        strip_front_matter_spec(content) == content,
{
}

/// Every prefix of a replacement result is a prefix of the input, unless it
/// already holds the (single) replacement character.
proof fn lemma_replace_prefix(s: Seq<char>, p: Seq<char>, x: char, m: int)
    requires
        p.len() > 0,
        0 <= m <= replace_all(s, p, seq![x]).len(),
    ensures
        ({
            let out = replace_all(s, p, seq![x]);
            (m <= s.len() && out.take(m) == s.take(m)) || exists|j: int|
                0 <= j < m && out[j] == x
        }),
    decreases s.len(),
{
    let out = replace_all(s, p, seq![x]);
    if m == 0 {
        assert(out.take(0) == s.take(0));
    } else if s.len() < p.len() {
    } else if s.take(p.len() as int) == p {
        assert(out[0] == x);
    } else {
        let tail = s.drop_first();
        let rest = replace_all(tail, p, seq![x]);
        assert(out == seq![s[0]] + rest);
        lemma_replace_prefix(tail, p, x, m - 1);
        if m - 1 <= tail.len() && rest.take(m - 1) == tail.take(m - 1) {
            assert forall|k: int| 0 <= k < m implies out.take(m)[k] == s.take(m)[k] by {
                if k > 0 {
                    assert(rest.take(m - 1)[k - 1] == tail.take(m - 1)[k - 1]);
                }
            }
            assert(out.take(m) =~= s.take(m));
        } else {
            let j = choose|j: int| 0 <= j < m - 1 && rest[j] == x;
            assert(out[j + 1] == x);
        }
    }
}

/// An occurrence of `q` in `seq![c] + rest`, at the front, whose tail part
/// either copies `tail` or meets the character `x` that `q` lacks.
proof fn lemma_front_occurrence(
    s: Seq<char>,
    p: Seq<char>,
    q: Seq<char>,
    x: char,
)
    requires
        p.len() > 0,
        q.len() > 0,
        !q.contains(x),
        s.len() >= p.len(),
        s.take(p.len() as int) != p,
        matches_at(seq![s[0]] + replace_all(s.drop_first(), p, seq![x]), q, 0),
    ensures
        matches_at(s, q, 0),
{
    let tail = s.drop_first();
    let rest = replace_all(tail, p, seq![x]);
    let out = seq![s[0]] + rest;
    let n = q.len() as int;
    lemma_replace_prefix(tail, p, x, n - 1);
    if n - 1 <= tail.len() && rest.take(n - 1) == tail.take(n - 1) {
        assert forall|k: int| 0 <= k < n implies s.subrange(0, n)[k] == out.subrange(0, n)[k] by {
            if k > 0 {
                assert(rest.take(n - 1)[k - 1] == tail.take(n - 1)[k - 1]);
            }
        }
        assert(s.subrange(0, n) =~= out.subrange(0, n));
    } else {
        let j = choose|j: int| 0 <= j < n - 1 && rest[j] == x;
        assert(out.subrange(0, n)[j + 1] == x);
        assert(q[j + 1] == x);
    }
}

/// Replacing `p` by a character that `p` lacks leaves no occurrence of `p`.
proof fn lemma_replace_removes_pattern(s: Seq<char>, p: Seq<char>, x: char)
    requires
        p.len() > 0,
        !p.contains(x),
    ensures
        forall|i: int| !matches_at(#[trigger] replace_all(s, p, seq![x]), p, i),
    decreases s.len(),
{
    let out = replace_all(s, p, seq![x]);
    if s.len() < p.len() {
        assert forall|i: int| !matches_at(out, p, i) by {
            if matches_at(out, p, i) {
                assert(out.len() < p.len());
            }
        }
    } else if s.take(p.len() as int) == p {
        let rest = replace_all(s.skip(p.len() as int), p, seq![x]);
        lemma_replace_removes_pattern(s.skip(p.len() as int), p, x);
        assert(out == seq![x] + rest);
        assert forall|i: int| !matches_at(out, p, i) by {
            if matches_at(out, p, i) {
                if i == 0 {
                    assert(out.subrange(0, p.len() as int)[0] == x);
                    assert(p[0] == x);
                } else {
                    assert(rest.subrange(i - 1, i - 1 + p.len()) =~= out.subrange(i, i + p.len()));
                    assert(matches_at(rest, p, i - 1));
                }
            }
        }
    } else {
        let tail = s.drop_first();
        let rest = replace_all(tail, p, seq![x]);
        lemma_replace_removes_pattern(tail, p, x);
        assert(out == seq![s[0]] + rest);
        assert forall|i: int| !matches_at(out, p, i) by {
            if matches_at(out, p, i) {
                if i == 0 {
                    lemma_front_occurrence(s, p, p, x);
                    assert(s.subrange(0, p.len() as int) == s.take(p.len() as int));
                } else {
                    assert(rest.subrange(i - 1, i - 1 + p.len()) =~= out.subrange(i, i + p.len()));
                    assert(matches_at(rest, p, i - 1));
                }
            }
        }
    }
}

/// Replacing `p` by a character that `q` lacks creates no occurrence of `q`.
proof fn lemma_replace_adds_no_pattern(s: Seq<char>, p: Seq<char>, q: Seq<char>, x: char)
    requires
        p.len() > 0,
        q.len() > 0,
        !q.contains(x),
        forall|i: int| !matches_at(s, q, i),
    ensures
        forall|i: int| !matches_at(#[trigger] replace_all(s, p, seq![x]), q, i),
    decreases s.len(),
{
    let out = replace_all(s, p, seq![x]);
    if s.len() < p.len() {
    } else if s.take(p.len() as int) == p {
        let tail = s.skip(p.len() as int);
        let rest = replace_all(tail, p, seq![x]);
        assert forall|i: int| !matches_at(tail, q, i) by {
            if matches_at(tail, q, i) {
                assert(s.subrange(i + p.len(), i + p.len() + q.len()) =~= tail.subrange(
                    i,
                    i + q.len(),
                ));
                assert(matches_at(s, q, i + p.len()));
            }
        }
        lemma_replace_adds_no_pattern(tail, p, q, x);
        assert(out == seq![x] + rest);
        assert forall|i: int| !matches_at(out, q, i) by {
            if matches_at(out, q, i) {
                if i == 0 {
                    assert(out.subrange(0, q.len() as int)[0] == x);
                    assert(q[0] == x);
                } else {
                    assert(rest.subrange(i - 1, i - 1 + q.len()) =~= out.subrange(i, i + q.len()));
                    assert(matches_at(rest, q, i - 1));
                }
            }
        }
    } else {
        let tail = s.drop_first();
        let rest = replace_all(tail, p, seq![x]);
        assert forall|i: int| !matches_at(tail, q, i) by {
            if matches_at(tail, q, i) {
                assert(s.subrange(i + 1, i + 1 + q.len()) =~= tail.subrange(i, i + q.len()));
                assert(matches_at(s, q, i + 1));
            }
        }
        lemma_replace_adds_no_pattern(tail, p, q, x);
        assert(out == seq![s[0]] + rest);
        assert forall|i: int| !matches_at(out, q, i) by {
            if matches_at(out, q, i) {
                if i == 0 {
                    lemma_front_occurrence(s, p, q, x);
                } else {
                    assert(rest.subrange(i - 1, i - 1 + q.len()) =~= out.subrange(i, i + q.len()));
                    assert(matches_at(rest, q, i - 1));
                }
            }
        }
    }
}

/// After the symbol fix, neither dashed-arrow command is left in the text.
pub proof fn fixed_text_has_no_dashed_arrow_commands(content: Seq<char>)
    ensures
        !contains(fix_mitex_symbols_spec(content), dash_right_command()),
        !contains(fix_mitex_symbols_spec(content), dash_left_command()),
{
    let once = replace_all(content, dash_right_command(), seq!['\u{21E2}']);
    let twice = replace_all(once, dash_left_command(), seq!['\u{21E0}']);
    assert(!dash_right_command().contains('\u{21E2}')) by {
        if dash_right_command().contains('\u{21E2}') {
            let k = choose|k: int| 0 <= k < 15 && dash_right_command()[k] == '\u{21E2}';
        }
    }
    assert(!dash_right_command().contains('\u{21E0}')) by {
        if dash_right_command().contains('\u{21E0}') {
            let k = choose|k: int| 0 <= k < 15 && dash_right_command()[k] == '\u{21E0}';
        }
    }
    assert(!dash_left_command().contains('\u{21E0}')) by {
        if dash_left_command().contains('\u{21E0}') {
            let k = choose|k: int| 0 <= k < 14 && dash_left_command()[k] == '\u{21E0}';
        }
    }
    lemma_replace_removes_pattern(content, dash_right_command(), '\u{21E2}');
    lemma_replace_removes_pattern(once, dash_left_command(), '\u{21E0}');
    lemma_replace_adds_no_pattern(once, dash_left_command(), dash_right_command(), '\u{21E0}');
    assert(!contains(twice, dash_right_command()));
    assert(!contains(twice, dash_left_command()));
}

/// Text without any occurrence of a pattern is left alone by its replacement.
proof fn lemma_replace_without_match(s: Seq<char>, p: Seq<char>, r: Seq<char>)
    requires
        p.len() > 0,
        forall|i: int| !matches_at(s, p, i),
    ensures
        replace_all(s, p, r) == s,
    decreases s.len(),
{
    if s.len() < p.len() {
    } else {
        assert(s.take(p.len() as int) == s.subrange(0, p.len() as int));
        assert(!matches_at(s, p, 0));
        let tail = s.drop_first();
        assert forall|i: int| !matches_at(tail, p, i) by {
            if matches_at(tail, p, i) {
                assert(s.subrange(i + 1, i + 1 + p.len()) =~= tail.subrange(i, i + p.len()));
                assert(matches_at(s, p, i + 1));
            }
        }
        lemma_replace_without_match(tail, p, r);
        assert(seq![s[0]] + tail == s);
    }
}

/// Text that holds neither dashed-arrow command passes through the symbol
/// fix unchanged.
pub proof fn text_without_dashed_arrows_is_unchanged(content: Seq<char>)
    requires
        !contains(content, dash_right_command()),
        !contains(content, dash_left_command()),
    ensures
        fix_mitex_symbols_spec(content) == content,
{
    lemma_replace_without_match(content, dash_right_command(), seq!['\u{21E2}']);
    lemma_replace_without_match(content, dash_left_command(), seq!['\u{21E0}']);
}

/// A segment start is preceded by a separator (or starts the path), and the
/// segment holds no separator.
proof fn lemma_segment_start_shape(p: Seq<char>, end: int)
    requires
        0 <= end <= p.len(),
    ensures
        segment_start(p, end) == 0 || p[segment_start(p, end) - 1] == '/',
        forall|k: int| segment_start(p, end) <= k < end ==> p[k] != '/',
    decreases end,
{
    lemma_segment_start_bounds(p, end);
    if end > 0 && p[end - 1] != '/' {
        lemma_segment_start_shape(p, end - 1);
    }
}

/// A separator-free stretch that starts the path or follows a separator is
/// the segment that ends where the stretch ends.
proof fn lemma_segment_start_of_stretch(p: Seq<char>, a: int, end: int)
    requires
        0 <= a <= end <= p.len(),
        a == 0 || p[a - 1] == '/',
        forall|k: int| a <= k < end ==> p[k] != '/',
    ensures
        segment_start(p, end) == a,
    decreases end,
{
    if end > a {
        lemma_segment_start_of_stretch(p, a, end - 1);
    }
}

/// What `file_name_range` finds is a proper, separator-free segment that is
/// neither `.` nor `..`.
proof fn lemma_file_name_range_shape(p: Seq<char>, end: int)
    requires
        0 <= end <= p.len(),
    ensures
        file_name_range(p, end) matches Some((s, e)) ==> {
            &&& 0 <= s < e <= end
            &&& segment_start(p, e) == s
            &&& (s == 0 || p[s - 1] == '/')
            &&& forall|k: int| s <= k < e ==> p[k] != '/'
        },
    decreases end,
{
    if end > 0 {
        if p[end - 1] == '/' {
            lemma_file_name_range_shape(p, end - 1);
        } else {
            let start = segment_start(p, end);
            lemma_segment_start_bounds(p, end - 1);
            lemma_segment_start_shape(p, end);
            if end - start == 1 && p[start] == '.' {
                lemma_file_name_range_shape(p, start);
            }
        }
    }
}

/// A dot found by `last_dot` lies in the searched range and holds `.`.
proof fn lemma_last_dot_bounds(p: Seq<char>, start: int, end: int)
    ensures
        last_dot(p, start, end) matches Some(d) ==> start <= d < end && p[d] == '.',
    decreases end - start,
{
    if end > start && p[end - 1] != '.' {
        lemma_last_dot_bounds(p, start, end - 1);
    }
}

/// Setting the `pdf` extension twice gives the same path as setting it once.
pub proof fn pdf_extension_is_idempotent(p: Seq<char>)
    ensures
        with_pdf_extension(with_pdf_extension(p)) == with_pdf_extension(p),
{
    lemma_file_name_range_shape(p, p.len() as int);
    match file_name_range(p, p.len() as int) {
        None => {},
        Some((s, e)) => {
            lemma_last_dot_bounds(p, s, e);
            let m = stem_end(p, s, e);
            assert(s < m <= e);
            let q = p.take(m) + pdf_suffix();
            assert(q.len() == m + 4);
            assert forall|k: int| s <= k < m + 4 implies q[k] != '/' by {
                if k < m {
                    assert(q[k] == p[k]);
                }
            }
            if s > 0 {
                assert(q[s - 1] == p[s - 1]);
            }
            lemma_segment_start_of_stretch(q, s, m + 4);
            assert(q[m + 3] == 'f');
            assert(file_name_range(q, m + 4) == Some((s, m + 4)));
            assert(q[m + 2] == 'd');
            assert(q[m + 1] == 'p');
            assert(q[m] == '.');
            assert(last_dot(q, s, m + 1) == Some(m));
            assert(last_dot(q, s, m + 2) == Some(m));
            assert(last_dot(q, s, m + 3) == Some(m));
            assert(last_dot(q, s, m + 4) == Some(m));
            assert(stem_end(q, s, m + 4) == m);
            assert(q.take(m) == p.take(m));
            assert(q.take(m) + pdf_suffix() == q);
        },
    }
}

/// The output path keeps the input's directory part and ends in `.pdf`
/// whenever the input names a file.
pub proof fn pdf_path_keeps_directory(p: Seq<char>)
    ensures
        file_name_range(p, p.len() as int) matches Some((s, e)) ==> {
            &&& with_pdf_extension(p).take(s) == p.take(s)
            &&& ends_with(with_pdf_extension(p), pdf_suffix())
        },
{
    lemma_file_name_range_shape(p, p.len() as int);
    if let Some((s, e)) = file_name_range(p, p.len() as int) {
        lemma_last_dot_bounds(p, s, e);
        let q = with_pdf_extension(p);
        let m = stem_end(p, s, e);
        assert(q.take(s) == p.take(s));
        assert(q.subrange(q.len() - 4, q.len() as int) == pdf_suffix());
    }
}

/// The value stored under `key` in a list of key/value entries: that of the
/// first entry with this key, if any.
pub open spec fn input_value(entries: Seq<(Seq<char>, Seq<char>)>, key: Seq<char>) -> Option<
    Seq<char>,
>
    decreases entries.len(),
{
    if entries.len() == 0 {
        None
    } else if entries[0].0 == key {
        Some(entries[0].1)
    } else {
        input_value(entries.drop_first(), key)
    }
}

/// A flag as the template reads it: `true` or `false`.
pub open spec fn flag_text(b: bool) -> Seq<char> {
    if b {
        "true"@
    } else {
        "false"@
    }
}

/// The template inputs carry the document and every layout setting: the
/// prepared content under `content`, the margin and font size as given, and
/// the table-of-contents and section-numbering flags as `true`/`false`; there
/// are no other keys.
pub proof fn template_inputs_carry_the_settings(content: Seq<char>, cli: Cli)
    ensures
        ({
            let inputs = compile_inputs_spec(content, cli);
            &&& input_value(inputs, "content"@) == Some(
                fix_mitex_symbols_spec(strip_front_matter_spec(content)),
            )
            &&& input_value(inputs, "margin"@) == Some(cli.margin@)
            &&& input_value(inputs, "font-size"@) == Some(cli.font_size@)
            &&& input_value(inputs, "toc"@) == Some(flag_text(cli.toc))
            &&& input_value(inputs, "number-sections"@) == Some(flag_text(cli.number_sections))
            &&& inputs.len() == 5
            &&& forall|i: int|
                0 <= i < 5 ==> {
                    let k = (#[trigger] inputs[i]).0;
                    k == "content"@ || k == "margin"@ || k == "font-size"@ || k == "toc"@ || k
                        == "number-sections"@
                }
        }),
{
    reveal_strlit("content");
    reveal_strlit("margin");
    reveal_strlit("font-size");
    reveal_strlit("toc");
    reveal_strlit("number-sections");
    reveal_strlit("true");
    reveal_strlit("false");
    reveal_with_fuel(input_value, 6);
    let inputs = compile_inputs_spec(content, cli);
    assert(inputs.drop_first() =~= seq![inputs[1], inputs[2], inputs[3], inputs[4]]);
    assert(inputs.drop_first().drop_first() =~= seq![inputs[2], inputs[3], inputs[4]]);
    assert(inputs.drop_first().drop_first().drop_first() =~= seq![inputs[3], inputs[4]]);
    assert(inputs.drop_first().drop_first().drop_first().drop_first() =~= seq![inputs[4]]);
    assert("content"@ != "margin"@ && "content"@ != "font-size"@ && "content"@ != "toc"@
        && "content"@ != "number-sections"@) by {
        assert("content"@[0] != "margin"@[0]);
        assert("content"@[0] != "font-size"@[0]);
        assert("content"@[0] != "toc"@[0]);
        assert("content"@[0] != "number-sections"@[0]);
    }
    assert("margin"@ != "font-size"@ && "margin"@ != "toc"@ && "margin"@ != "number-sections"@)
        by {
        assert("margin"@[0] != "font-size"@[0]);
        assert("margin"@[0] != "toc"@[0]);
        assert("margin"@[0] != "number-sections"@[0]);
    }
    assert("font-size"@ != "toc"@ && "font-size"@ != "number-sections"@) by {
        assert("font-size"@[0] != "toc"@[0]);
        assert("font-size"@[0] != "number-sections"@[0]);
    }
    assert("toc"@ != "number-sections"@) by {
        assert("toc"@[0] != "number-sections"@[0]);
    }
    assert(bool_text(cli.toc) == flag_text(cli.toc));
    assert(bool_text(cli.number_sections) == flag_text(cli.number_sections));
}

/// A line of the dry-run summary: `//   key: value`.
pub open spec fn summary_line(key: Seq<char>, value: Seq<char>) -> Seq<char> {
    "//   "@ + key + ": "@ + value
}

/// The dry-run summary shows what the template receives: after the heading,
/// the content's size in bytes once the front matter is removed, then one
/// line per layout setting, each with the value that the template inputs
/// hold under that key.
pub proof fn dry_run_summary_matches_template_inputs(
    content: Seq<char>,
    cli: Cli,
    preamble: Option<Seq<char>>,
)
    ensures
        ({
            let parts = dry_run_parts(content, cli, preamble);
            let inputs = compile_inputs_spec(content, cli);
            &&& parts[0] == "// sys.inputs:"@
            &&& parts[1] == summary_line(
                "content"@,
                "<"@ + decimal(utf8_len(strip_front_matter_spec(content))) + " bytes>"@,
            )
            &&& input_value(inputs, "font-size"@) matches Some(v) && parts[2] == summary_line(
                "font-size"@,
                v,
            )
            &&& input_value(inputs, "margin"@) matches Some(v) && parts[3] == summary_line(
                "margin"@,
                v,
            )
            &&& input_value(inputs, "number-sections"@) matches Some(v) && parts[4]
                == summary_line("number-sections"@, v)
            &&& input_value(inputs, "toc"@) matches Some(v) && parts[5] == summary_line("toc"@, v)
        }),
{
    template_inputs_carry_the_settings(content, cli);
    reveal_strlit("//   ");
    reveal_strlit(": ");
    reveal_strlit("content");
    reveal_strlit("margin");
    reveal_strlit("font-size");
    reveal_strlit("toc");
    reveal_strlit("number-sections");
    reveal_strlit("true");
    reveal_strlit("false");
    reveal_strlit("<");
    reveal_strlit("//   content: <");
    reveal_strlit("//   font-size: ");
    reveal_strlit("//   margin: ");
    reveal_strlit("//   number-sections: ");
    reveal_strlit("//   toc: ");
    let parts = dry_run_parts(content, cli, preamble);
    let size = decimal(utf8_len(strip_front_matter_spec(content)));
    assert(parts[1] =~= summary_line("content"@, "<"@ + size + " bytes>"@));
    assert(parts[2] =~= summary_line("font-size"@, cli.font_size@));
    assert(parts[3] =~= summary_line("margin"@, cli.margin@));
    assert(parts[4] =~= summary_line("number-sections"@, flag_text(cli.number_sections)));
    assert(parts[5] =~= summary_line("toc"@, flag_text(cli.toc)));
}

} // verus!
