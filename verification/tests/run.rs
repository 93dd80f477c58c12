use mdpdf::cli::Cli;
use mdpdf::report::RenderResult;
use mdpdf::run::{
    batch_summary, exit_status, failure_count, plan_run, stdin_content_error, RunPlan,
};

fn with_files(files: &[&str]) -> Cli {
    Cli {
        files: files.iter().map(|f| f.to_string()).collect(),
        ..Cli::default()
    }
}

#[test]
fn no_files_on_terminal_shows_help() {
    assert!(matches!(plan_run(&Cli::default(), true), RunPlan::ShowHelp));
}

#[test]
fn stdin_without_output_is_rejected() {
    match plan_run(&Cli::default(), false) {
        RunPlan::Reject { message } => {
            assert_eq!(message, "error: --output is required when reading from stdin")
        }
        _ => panic!("expected rejection"),
    }
}

#[test]
fn stdin_with_output_renders_or_dry_runs() {
    let cli = Cli {
        output: Some("doc.pdf".to_string()),
        ..Cli::default()
    };
    match plan_run(&cli, false) {
        RunPlan::RenderStdin { output } => assert_eq!(output, "doc.pdf"),
        _ => panic!("expected stdin render"),
    }
    let dry = Cli {
        dry_run: true,
        ..cli
    };
    assert!(matches!(plan_run(&dry, false), RunPlan::StdinDryRun));
}

#[test]
fn output_with_several_files_is_rejected() {
    let cli = Cli {
        output: Some("x.pdf".to_string()),
        ..with_files(&["a.md", "b.md"])
    };
    match plan_run(&cli, true) {
        RunPlan::Reject { message } => {
            assert_eq!(message, "error: --output can only be used with a single input file")
        }
        _ => panic!("expected rejection"),
    }
}

#[test]
fn dry_run_of_files() {
    let cli = Cli {
        dry_run: true,
        ..with_files(&["a.md", "b.md"])
    };
    match plan_run(&cli, false) {
        RunPlan::DryRun { files, separate } => {
            assert_eq!(files, vec!["a.md", "b.md"]);
            assert!(separate);
        }
        _ => panic!("expected dry run"),
    }
    let single = Cli {
        dry_run: true,
        ..with_files(&["a.md"])
    };
    assert!(matches!(
        plan_run(&single, false),
        RunPlan::DryRun { separate: false, .. }
    ));
}

#[test]
fn single_file_uses_default_or_given_output() {
    match plan_run(&with_files(&["dir/doc.md"]), false) {
        RunPlan::RenderOne { input, output } => {
            assert_eq!(input, "dir/doc.md");
            assert_eq!(output, "dir/doc.pdf");
        }
        _ => panic!("expected single render"),
    }
    let cli = Cli {
        output: Some("elsewhere.pdf".to_string()),
        ..with_files(&["doc.md"])
    };
    match plan_run(&cli, false) {
        RunPlan::RenderOne { output, .. } => assert_eq!(output, "elsewhere.pdf"),
        _ => panic!("expected single render"),
    }
}

#[test]
fn several_files_render_as_batch() {
    match plan_run(&with_files(&["a.md", "b.txt", "c"]), true) {
        RunPlan::RenderBatch { jobs } => assert_eq!(
            jobs,
            vec![
                ("a.md".to_string(), "a.pdf".to_string()),
                ("b.txt".to_string(), "b.pdf".to_string()),
                ("c".to_string(), "c.pdf".to_string()),
            ]
        ),
        _ => panic!("expected batch"),
    }
}

#[test]
fn empty_stdin_is_an_error() {
    assert_eq!(stdin_content_error(""), Some("no input on stdin".to_string()));
    assert_eq!(stdin_content_error("# x"), None);
}

fn outcome(success: bool) -> RenderResult {
    RenderResult {
        input: "i".to_string(),
        output: "o".to_string(),
        success,
        time_ms: 0,
        error: None,
        warnings: Vec::new(),
    }
}

#[test]
fn batch_outcome_counts_failures() {
    let results = vec![outcome(true), outcome(false), outcome(false)];
    let fails = failure_count(&results);
    assert_eq!(fails, 2);
    assert_eq!(exit_status(fails), 1);
    assert_eq!(exit_status(failure_count(&vec![outcome(true)])), 0);
    assert_eq!(batch_summary(3, 2), "\nRendered 3 files (2 failures)");
    assert_eq!(batch_summary(10, 0), "\nRendered 10 files (0 failures)");
}
