//! Typesetting a prepared document with the typst engine and exporting it as
//! PDF.

use typst::foundations::{Dict, IntoValue};
use typst::layout::PagedDocument;
use typst_as_lib::{TypstEngine, TypstTemplateMainFile};
use typst_pdf::PdfOptions;

use vstd::prelude::*;

use crate::cli::Cli;
use crate::render::compile_inputs;
use crate::text::{append_chars, chars_of, string_of, views};

verus! {

broadcast use vstd::string::group_string_axioms;

/// `typst_as_lib::TypstEngine`, carried through opaquely.
#[verifier::external_type_specification]
#[verifier::external_body]
#[verifier::reject_recursive_types(T)]
pub struct ExTypstEngine<T>(TypstEngine<T>);

/// `typst_as_lib::TypstTemplateMainFile`, the engine state with a main file.
#[verifier::external_type_specification]
#[verifier::external_body]
pub struct ExTypstTemplateMainFile(TypstTemplateMainFile);

/// `typst::layout::PagedDocument`, carried through opaquely.
#[verifier::external_type_specification]
#[verifier::external_body]
pub struct ExPagedDocument(PagedDocument);

/// `TypstEngine::compile_with_input`: compiles the engine's main file with
/// `inputs` as `sys.inputs` (each value a typst string). Returns the document
/// or the error's text, and the messages of the warnings. Nothing is stated of
/// the outcome: the engine reads the clock (for `datetime.today()`) and its
/// fonts and packages.
#[verifier::external_body]
fn typeset(engine: &TypstEngine<TypstTemplateMainFile>, inputs: &Vec<(String, String)>) -> (r: (
    Result<PagedDocument, String>,
    Vec<String>,
)) {
    let dict: Dict = inputs.iter().map(|(k, v)| (k.as_str().into(), v.as_str().into_value())).collect();
    let compiled = engine.compile_with_input(dict);
    let warnings = compiled.warnings.iter().map(|w| w.message.to_string()).collect();
    (compiled.output.map_err(|e| e.to_string()), warnings)
}

/// The bytes `%PDF-` that open every PDF file.
pub open spec fn pdf_header() -> Seq<u8> {
    seq![0x25u8, 0x50u8, 0x44u8, 0x46u8, 0x2du8]
}

/// `typst_pdf::pdf` with the default options: the PDF bytes of `document`,
/// or the messages of the errors that stopped the export. The contract
/// claims only that exported bytes open with the `%PDF-` header (the buffer
/// that `pdf_writer::Pdf` starts from, returned by typst-pdf as it is); the
/// rest of the bytes takes pages to describe and is not stated.
#[verifier::external_body]
fn export_pdf(document: &PagedDocument) -> (r: Result<Vec<u8>, Vec<String>>)
    ensures
        r matches Ok(bytes) ==> bytes@.len() >= 5 && bytes@.take(5) == pdf_header(),
{
    typst_pdf::pdf(document, &PdfOptions::default()).map_err(
        |errors| errors.iter().map(|e| e.message.to_string()).collect(),
    )
}

/// A compiled document: its PDF bytes and the warnings worth reporting.
pub struct CompileOutput {
    pub pdf: Vec<u8>,
    pub warnings: Vec<String>,
}

/// The error reported when typst cannot compile the document.
pub open spec fn compile_failure_spec(error: Seq<char>) -> Seq<char> {
    "typst compilation failed:\n  "@ + error
}

/// The error reported when the PDF export fails: a heading and one
/// `error:` line per message.
pub open spec fn pdf_failure_spec(messages: Seq<Seq<char>>) -> Seq<char>
    decreases messages.len(),
{
    if messages.len() == 0 {
        "PDF export failed:"@
    } else {
        pdf_failure_spec(messages.drop_last()) + "\n  error: "@ + messages.last()
    }
}

/// Formats a compilation error.
pub fn compile_failure_message(error: &str) -> (m: String)
    ensures
        m@ == compile_failure_spec(error@),
{
    let mut v = chars_of("typst compilation failed:\n  ");
    append_chars(&mut v, &chars_of(error));
    string_of(&v)
}

/// Formats the errors of a failed PDF export.
pub fn pdf_failure_message(messages: &Vec<String>) -> (m: String)
    ensures
        m@ == pdf_failure_spec(views(messages@)),
{
    let mut v = chars_of("PDF export failed:");
    let mut i: usize = 0;
    while i < messages.len()
        invariant
            i <= messages.len(),
            v@ == pdf_failure_spec(views(messages@).take(i as int)),
        decreases messages.len() - i,
    {
        assert(views(messages@).take(i + 1).drop_last() == views(messages@).take(i as int));
        append_chars(&mut v, &chars_of("\n  error: "));
        append_chars(&mut v, &chars_of(messages[i].as_str()));
        i = i + 1;
    }
    assert(views(messages@).take(messages.len() as int) == views(messages@));
    string_of(&v)
}

/// What a successful compilation yields, given the export's outcome: the
/// PDF with the warnings (kept only in verbose mode), or the export's errors.
pub fn export_outcome(verbose: bool, warnings: Vec<String>, exported: Result<Vec<u8>, Vec<String>>) -> (r: Result<CompileOutput, String>)
    ensures
        match exported {
            Ok(bytes) => r matches Ok(out) && out.pdf@ == bytes@ && (if verbose {
                views(out.warnings@) == views(warnings@)
            } else {
                out.warnings@.len() == 0
            }),
            Err(ms) => r matches Err(e) && e@ == pdf_failure_spec(views(ms@)),
        },
{
    match exported {
        Ok(pdf) => {
            let warnings = if verbose {
                warnings
            } else {
                Vec::new()
            };
            Ok(CompileOutput { pdf, warnings })
        },
        Err(messages) => Err(pdf_failure_message(&messages)),
    }
}

/// Compiles a markdown document to PDF with `engine`, whose main file is the
/// template: the template receives [`compile_inputs`] of the document, a
/// compilation error is reported with [`compile_failure_spec`], an export
/// error with [`pdf_failure_spec`]; warnings are kept only in verbose mode;
/// the bytes returned are the exported PDF, which opens with `%PDF-`.
pub fn compile_to_pdf(engine: &TypstEngine<TypstTemplateMainFile>, content: &str, cli: &Cli) -> (r:
    Result<CompileOutput, String>)
    ensures
        r matches Ok(out) ==> out.pdf@.len() >= 5 && out.pdf@.take(5) == pdf_header() && (
        !cli.verbose ==> out.warnings@.len() == 0),
        r matches Err(e) ==> (exists|m: Seq<char>| e@ == compile_failure_spec(m)) || (exists|
            ms: Seq<Seq<char>>,
        | e@ == pdf_failure_spec(ms)),
{
    let inputs = compile_inputs(content, cli);
    let (document, warnings) = typeset(engine, &inputs);
    match document {
        Err(e) => {
            let m = compile_failure_message(e.as_str());
            assert(m@ == compile_failure_spec(e@));
            Err(m)
        },
        Ok(document) => {
            export_outcome(cli.verbose, warnings, export_pdf(&document))
        },
    }
}

} // verus!
