//! The decisions of one invocation: what to do with the given settings, and
//! how a batch of results turns into a summary and an exit status.

use vstd::prelude::*;

use crate::cli::Cli;
use crate::render::{default_output_path, with_pdf_extension};
use crate::report::RenderResult;
use crate::text::{append_chars, chars_of, decimal, decimal_exec, string_of, views};

verus! {

broadcast use vstd::string::group_string_axioms;

/// What an invocation does.
pub enum RunPlan {
    /// No input files and a terminal on standard input: print the help text
    /// and exit successfully.
    ShowHelp,
    /// Refuse the arguments: print the message and exit with status 1.
    Reject { message: String },
    /// Print the dry-run view of standard input.
    StdinDryRun,
    /// Render standard input to `output`.
    RenderStdin { output: String },
    /// Print the dry-run view of each file, with a blank line after each when
    /// there are several.
    DryRun { files: Vec<String>, separate: bool },
    /// Render one file.
    RenderOne { input: String, output: String },
    /// Render several files, each to its own output path, in parallel.
    RenderBatch { jobs: Vec<(String, String)> },
}

pub open spec fn stdin_needs_output_message() -> Seq<char> {
    "error: --output is required when reading from stdin"@
}

pub open spec fn output_needs_single_file_message() -> Seq<char> {
    "error: --output can only be used with a single input file"@
}

/// The plan for the settings `cli`, given whether standard input is a
/// terminal.
pub open spec fn plan_matches(cli: Cli, stdin_is_terminal: bool, r: RunPlan) -> bool {
    let files = cli.files@;
    if files.len() == 0 {
        if stdin_is_terminal {
            r is ShowHelp
        } else {
            match cli.output {
                None => r matches RunPlan::Reject { message } && message@
                    == stdin_needs_output_message(),
                Some(o) => if cli.dry_run {
                    r is StdinDryRun
                } else {
                    r matches RunPlan::RenderStdin { output } && output@ == o@
                },
            }
        }
    } else if cli.output is Some && files.len() > 1 {
        r matches RunPlan::Reject { message } && message@ == output_needs_single_file_message()
    } else if cli.dry_run {
        r matches RunPlan::DryRun { files: fs, separate } && views(fs@) == views(files) && separate == (
        files.len() > 1)
    } else if files.len() == 1 {
        r matches RunPlan::RenderOne { input, output } && input@ == files[0]@ && output@ == (
        match cli.output {
            Some(o) => o@,
            None => with_pdf_extension(files[0]@),
        })
    } else {
        r matches RunPlan::RenderBatch { jobs } && jobs@.len() == files.len() && forall|i: int|
            0 <= i < files.len() ==> (#[trigger] jobs@[i]).0@ == files[i]@ && jobs@[i].1@
                == with_pdf_extension(files[i]@)
    }
}

fn copy_string(s: &String) -> (r: String)
    ensures
        r@ == s@,
{
    string_of(&chars_of(s.as_str()))
}

fn copy_strings(v: &Vec<String>) -> (r: Vec<String>)
    ensures
        r@.len() == v@.len(),
        forall|i: int| 0 <= i < v@.len() ==> (#[trigger] r@[i])@ == v@[i]@,
{
    let mut r: Vec<String> = Vec::new();
    let mut i: usize = 0;
    while i < v.len()
        invariant
            i <= v.len(),
            r@.len() == i,
            forall|k: int| 0 <= k < i ==> (#[trigger] r@[k])@ == v@[k]@,
        decreases v.len() - i,
    {
        r.push(copy_string(&v[i]));
        i = i + 1;
    }
    r
}

/// Decides what an invocation does (see [`plan_matches`]).
pub fn plan_run(cli: &Cli, stdin_is_terminal: bool) -> (r: RunPlan)
    ensures
        plan_matches(*cli, stdin_is_terminal, r),
{
    if cli.files.len() == 0 {
        if stdin_is_terminal {
            return RunPlan::ShowHelp;
        }
        return match &cli.output {
            None => RunPlan::Reject {
                message: string_of(&chars_of("error: --output is required when reading from stdin")),
            },
            Some(o) => if cli.dry_run {
                RunPlan::StdinDryRun
            } else {
                RunPlan::RenderStdin { output: copy_string(o) }
            },
        };
    }
    if cli.output.is_some() && cli.files.len() > 1 {
        return RunPlan::Reject {
            message: string_of(
                &chars_of("error: --output can only be used with a single input file"),
            ),
        };
    }
    if cli.dry_run {
        let files = copy_strings(&cli.files);
        assert(views(files@) =~= views(cli.files@));
        return RunPlan::DryRun { files, separate: cli.files.len() > 1 };
    }
    if cli.files.len() == 1 {
        let input = copy_string(&cli.files[0]);
        let output = match &cli.output {
            Some(o) => copy_string(o),
            None => default_output_path(cli.files[0].as_str()),
        };
        return RunPlan::RenderOne { input, output };
    }
    let mut jobs: Vec<(String, String)> = Vec::new();
    let mut i: usize = 0;
    while i < cli.files.len()
        invariant
            i <= cli.files.len(),
            jobs@.len() == i,
            forall|k: int|
                0 <= k < i ==> (#[trigger] jobs@[k]).0@ == cli.files@[k]@ && jobs@[k].1@
                    == with_pdf_extension(cli.files@[k]@),
        decreases cli.files.len() - i,
    {
        let input = copy_string(&cli.files[i]);
        let output = default_output_path(cli.files[i].as_str());
        jobs.push((input, output));
        i = i + 1;
    }
    RunPlan::RenderBatch { jobs }
}

/// The failure reported when standard input turns out to be empty.
pub fn stdin_content_error(content: &str) -> (e: Option<String>)
    ensures
        match e {
            Some(m) => content@.len() == 0 && m@ == "no input on stdin"@,
            None => content@.len() > 0,
        },
{
    if content.is_empty() {
        Some(string_of(&chars_of("no input on stdin")))
    } else {
        None
    }
}

// ---------------------------------------------------------------------------
// Outcome
// ---------------------------------------------------------------------------

/// The number of failed results.
pub open spec fn failures(rs: Seq<RenderResult>) -> nat
    decreases rs.len(),
{
    if rs.len() == 0 {
        0
    } else {
        failures(rs.drop_last()) + if rs.last().success {
            0nat
        } else {
            1nat
        }
    }
}

/// Counts the failed results.
pub fn failure_count(results: &Vec<RenderResult>) -> (n: usize)
    ensures
        n == failures(results@),
{
    let mut n: usize = 0;
    let mut i: usize = 0;
    while i < results.len()
        invariant
            i <= results.len(),
            n == failures(results@.take(i as int)),
            n <= i,
        decreases results.len() - i,
    {
        assert(results@.take(i + 1).drop_last() == results@.take(i as int));
        if !results[i].success {
            n = n + 1;
        }
        i = i + 1;
    }
    assert(results@.take(results.len() as int) == results@);
    n
}

/// The exit status: 0 when every render succeeded, 1 otherwise.
pub fn exit_status(fail_count: usize) -> (code: u8)
    ensures
        code == (if fail_count == 0 {
            0u8
        } else {
            1u8
        }),
{
    if fail_count > 0 {
        1
    } else {
        0
    }
}

/// The closing line of a human-readable batch report:
/// `\nRendered <total> files (<failures> failures)`.
pub fn batch_summary(total: usize, fail_count: usize) -> (s: String)
    ensures
        s@ == "\nRendered "@ + decimal(total as nat) + " files ("@ + decimal(fail_count as nat)
            + " failures)"@,
{
    let mut v = chars_of("\nRendered ");
    append_chars(&mut v, &decimal_exec(total as u128));
    append_chars(&mut v, &chars_of(" files ("));
    append_chars(&mut v, &decimal_exec(fail_count as u128));
    append_chars(&mut v, &chars_of(" failures)"));
    string_of(&v)
}

/// The exit status is 0 exactly when every file rendered successfully, and
/// 1 when at least one failed.
pub proof fn exit_status_reflects_every_result(rs: Seq<RenderResult>)
    ensures
        failures(rs) == 0 <==> forall|i: int| 0 <= i < rs.len() ==> (#[trigger] rs[i]).success,
        failures(rs) <= rs.len(),
    decreases rs.len(),
{
    if rs.len() > 0 {
        let init = rs.drop_last();
        exit_status_reflects_every_result(init);
        assert forall|i: int| 0 <= i < init.len() implies init[i] == rs[i] by {}
        if failures(rs) == 0 {
            assert forall|i: int| 0 <= i < rs.len() implies (#[trigger] rs[i]).success by {
                if i < init.len() {
                    assert(init[i].success);
                }
            }
        } else {
            if rs.last().success {
                let k = choose|k: int| 0 <= k < init.len() && !(#[trigger] init[k]).success;
                assert(!rs[k].success);
            }
        }
    }
}

/// `--output` names one file, so it is refused whenever several input files
/// are given, whatever the other settings (a dry run included) and whether
/// or not standard input is a terminal.
pub proof fn output_with_several_files_is_rejected(cli: Cli, stdin_is_terminal: bool, r: RunPlan)
    requires
        plan_matches(cli, stdin_is_terminal, r),
        cli.output is Some,
        cli.files@.len() > 1,
    ensures
        r matches RunPlan::Reject { message } && message@
            == "error: --output can only be used with a single input file"@,
{
}

/// A dry run never renders: whatever the files and the terminal, the plan
/// prints a dry-run view, the help text, or refuses the arguments.
pub proof fn dry_run_never_renders(cli: Cli, stdin_is_terminal: bool, r: RunPlan)
    requires
        plan_matches(cli, stdin_is_terminal, r),
        cli.dry_run,
    ensures
        !(r is RenderStdin) && !(r is RenderOne) && !(r is RenderBatch),
{
}

/// Input files given and not refused: every file is planned, in order, and a
/// dry run shows them all; otherwise each is rendered to the `-o` path (one
/// file) or to its own path with the `.pdf` extension.
pub proof fn every_file_is_planned(cli: Cli, stdin_is_terminal: bool, r: RunPlan)
    requires
        plan_matches(cli, stdin_is_terminal, r),
        cli.files@.len() > 0,
        !(cli.output is Some && cli.files@.len() > 1),
    ensures
        cli.dry_run ==> (r matches RunPlan::DryRun { files, separate } && files@.len()
            == cli.files@.len() && (forall|i: int|
            0 <= i < files@.len() ==> (#[trigger] files@[i])@ == cli.files@[i]@) && separate == (
        cli.files@.len() > 1)),
        !cli.dry_run && cli.files@.len() == 1 ==> (r matches RunPlan::RenderOne { input, output }
            && input@ == cli.files@[0]@ && (cli.output matches Some(o) ==> output@ == o@) && (
        cli.output is None ==> output@ == with_pdf_extension(cli.files@[0]@))),
        !cli.dry_run && cli.files@.len() > 1 ==> (r matches RunPlan::RenderBatch { jobs }
            && jobs@.len() == cli.files@.len() && forall|i: int|
            0 <= i < jobs@.len() ==> (#[trigger] jobs@[i]).0@ == cli.files@[i]@ && jobs@[i].1@
                == with_pdf_extension(cli.files@[i]@)),
{
    if cli.dry_run {
        if let RunPlan::DryRun { files, separate } = r {
            assert(views(files@).len() == files@.len());
            assert(views(cli.files@).len() == cli.files@.len());
            assert forall|i: int| 0 <= i < files@.len() implies (#[trigger] files@[i])@
                == cli.files@[i]@ by {
                assert(views(files@)[i] == views(cli.files@)[i]);
            }
        }
    }
}

/// With no input files, a terminal on standard input means help; otherwise
/// standard input is read, and `--output` is required for it.
pub proof fn no_files_reads_stdin_or_shows_help(cli: Cli, stdin_is_terminal: bool, r: RunPlan)
    requires
        plan_matches(cli, stdin_is_terminal, r),
        cli.files@.len() == 0,
    ensures
        stdin_is_terminal ==> r is ShowHelp,
        !stdin_is_terminal && cli.output is None ==> (r matches RunPlan::Reject { message }
            && message@ == "error: --output is required when reading from stdin"@),
        !stdin_is_terminal && cli.output is Some && cli.dry_run ==> r is StdinDryRun,
        !stdin_is_terminal && !cli.dry_run ==> (cli.output matches Some(o) ==> (
        r matches RunPlan::RenderStdin { output } && output@ == o@)),
{
}

} // verus!
