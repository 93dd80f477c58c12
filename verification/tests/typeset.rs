use mdpdf::cli::Cli;
use mdpdf::typeset::{
    compile_failure_message, compile_to_pdf, export_outcome, pdf_failure_message,
};
use typst_as_lib::TypstEngine;

#[test]
fn compile_failure_message_format() {
    assert_eq!(
        compile_failure_message("boom"),
        "typst compilation failed:\n  boom"
    );
}

#[test]
fn pdf_failure_message_format() {
    assert_eq!(pdf_failure_message(&vec![]), "PDF export failed:");
    assert_eq!(
        pdf_failure_message(&vec!["a".to_string(), "b".to_string()]),
        "PDF export failed:\n  error: a\n  error: b"
    );
}

#[test]
fn export_outcome_keeps_warnings_only_when_verbose() {
    let w = vec!["w".to_string()];
    let quiet = export_outcome(false, w.clone(), Ok(vec![1, 2])).ok().unwrap();
    assert_eq!(quiet.pdf, vec![1, 2]);
    assert!(quiet.warnings.is_empty());
    let loud = export_outcome(true, w.clone(), Ok(vec![3])).ok().unwrap();
    assert_eq!(loud.warnings, w);
    let failed = export_outcome(true, w, Err(vec!["bad".to_string()]));
    assert_eq!(failed.err().unwrap(), "PDF export failed:\n  error: bad");
}

#[test]
fn compile_to_pdf_produces_pdf_bytes() {
    let engine = TypstEngine::builder()
        .main_file("#sys.inputs.at(\"toc\")")
        .build();
    let out = compile_to_pdf(&engine, "hello", &Cli::default()).ok().unwrap();
    assert!(out.pdf.starts_with(b"%PDF-"));
    assert!(out.warnings.is_empty());
}

#[test]
fn compile_to_pdf_reports_compilation_errors() {
    let engine = TypstEngine::builder().main_file("#undefined-name").build();
    let err = compile_to_pdf(&engine, "hello", &Cli::default()).err().unwrap();
    assert!(err.starts_with("typst compilation failed:\n  "), "{err}");
}
