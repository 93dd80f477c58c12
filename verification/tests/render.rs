use mdpdf::cli::Cli;
use mdpdf::render::{
    compile_inputs, default_output_path, fix_mitex_symbols, format_dry_run, full_template,
    strip_front_matter,
};
use mdpdf::template::TEMPLATE;

#[test]
fn default_output_path_md_to_pdf() {
    assert_eq!(default_output_path("doc.md"), "doc.pdf");
}

#[test]
fn default_output_path_nested() {
    assert_eq!(default_output_path("/tmp/foo/bar.md"), "/tmp/foo/bar.pdf");
}

#[test]
fn default_output_path_no_extension() {
    assert_eq!(default_output_path("README"), "README.pdf");
}

#[test]
fn dry_run_contains_sys_inputs() {
    let cli = Cli::default();
    let output = format_dry_run("hello world", &cli, None);

    assert!(output.contains("// sys.inputs:"));
    assert!(output.contains("content"));
    assert!(output.contains("font-size"));
    assert!(output.contains("margin"));
    assert!(output.contains("toc"));
    assert!(output.contains("number-sections"));
}

#[test]
fn dry_run_contains_template() {
    let cli = Cli::default();
    let output = format_dry_run("test", &cli, None);

    assert!(output.contains("cmarker"));
    assert!(output.contains("mitex"));
}

#[test]
fn dry_run_shows_content_size() {
    let cli = Cli::default();
    let content = "x".repeat(42);
    let output = format_dry_run(&content, &cli, None);

    assert!(output.contains("<42 bytes>"));
}

#[test]
fn dry_run_custom_margin() {
    let cli = Cli {
        margin: "0.5in".to_string(),
        ..Cli::default()
    };
    let output = format_dry_run("test", &cli, None);

    assert!(output.contains("0.5in"));
}

#[test]
fn strip_front_matter_removes_yaml() {
    let input = "---\ntitle: Hello\ndate: 2026\n---\n# Heading\n";
    assert_eq!(strip_front_matter(input), "# Heading\n");
}

#[test]
fn strip_front_matter_no_front_matter() {
    let input = "# Just a heading\nSome text.\n";
    assert_eq!(strip_front_matter(input), input);
}

#[test]
fn strip_front_matter_unclosed() {
    let input = "---\ntitle: Hello\n# No closing delimiter\n";
    assert_eq!(strip_front_matter(input), input);
}

#[test]
fn strip_front_matter_hr_not_confused() {
    // A `---` that isn't at the start shouldn't be stripped
    let input = "# Title\n\n---\n\nSome text.\n";
    assert_eq!(strip_front_matter(input), input);
}

#[test]
fn dry_run_strips_front_matter() {
    let cli = Cli::default();
    let content = "---\ntitle: Test\n---\nHello world";
    let output = format_dry_run(content, &cli, None);
    // Size should reflect stripped content, not original
    assert!(output.contains("<11 bytes>"));
}

#[test]
fn fix_mitex_symbols_dashrightarrow() {
    let input = r"$$a \dashrightarrow b$$";
    let result = fix_mitex_symbols(input);
    assert!(result.contains('\u{21E2}'));
    assert!(!result.contains("dashrightarrow"));
}

#[test]
fn fix_mitex_symbols_dashleftarrow() {
    let input = r"$$a \dashleftarrow b$$";
    let result = fix_mitex_symbols(input);
    assert!(result.contains('\u{21E0}'));
    assert!(!result.contains("dashleftarrow"));
}

#[test]
fn fix_mitex_symbols_no_false_positives() {
    let input = r"$$a \rightarrow b$$";
    let result = fix_mitex_symbols(input);
    assert_eq!(result, input);
}

// --- Front matter: edge cases and the suffix law ---

#[test]
fn strip_front_matter_leading_whitespace_before_fence() {
    let input = "  \n---\na: 1\n---\nbody";
    assert_eq!(strip_front_matter(input), "body");
}

#[test]
fn strip_front_matter_closing_fence_at_end() {
    assert_eq!(strip_front_matter("---\na: 1\n---"), "");
}

#[test]
fn strip_front_matter_longer_dash_line_does_not_close() {
    // The closing `---` must stand on its own line.
    let input = "---\na\n----\nb";
    assert_eq!(strip_front_matter(input), input);
}

#[test]
fn strip_front_matter_text_after_dashes_does_not_close() {
    let input = "---\na: 1\n---x\nbody";
    assert_eq!(strip_front_matter(input), input);
}

#[test]
fn strip_front_matter_skips_to_the_line_that_is_only_dashes() {
    assert_eq!(strip_front_matter("---\na\n---x\n---\nbody"), "body");
}

#[test]
fn strip_front_matter_closing_fence_with_carriage_return_at_end() {
    assert_eq!(strip_front_matter("---\na\n---\r"), "\r");
}

#[test]
fn strip_front_matter_crlf_keeps_carriage_return() {
    assert_eq!(strip_front_matter("---\r\na\r\n---\r\nb"), "\r\nb");
}

#[test]
fn strip_front_matter_empty() {
    assert_eq!(strip_front_matter(""), "");
}

#[test]
fn strip_front_matter_result_is_suffix() {
    for input in [
        "---\ntitle: x\n---\n\nBody text\n",
        "\t---\nk: v\n---\nrest",
        "---\nunclosed",
        "plain text",
        "---\n---\n---\n",
    ] {
        let out = strip_front_matter(input);
        assert!(input.ends_with(out.as_str()), "{input:?} -> {out:?}");
    }
}

// --- Symbol fix: both commands, adjacency, non-ASCII ---

#[test]
fn fix_mitex_symbols_both_commands_removed() {
    let input = r"\dashrightarrow\dashleftarrow x \dash\dashleftarrowrightarrow";
    let result = fix_mitex_symbols(input);
    assert!(!result.contains(r"\dashrightarrow"));
    assert!(!result.contains(r"\dashleftarrow"));
    assert_eq!(result, "\u{21E2}\u{21E0} x \\dash\u{21E0}rightarrow");
}

#[test]
fn fix_mitex_symbols_repeated_and_unicode() {
    let input = "α \\dashrightarrow β \\dashrightarrow γ";
    assert_eq!(fix_mitex_symbols(input), "α \u{21E2} β \u{21E2} γ");
}

// --- Output naming ---

#[test]
fn default_output_path_replaces_last_extension() {
    assert_eq!(default_output_path("a.b.md"), "a.b.pdf");
    assert_eq!(default_output_path("notes."), "notes.pdf");
}

#[test]
fn default_output_path_dotfile_keeps_name() {
    assert_eq!(default_output_path(".bashrc"), ".bashrc.pdf");
    assert_eq!(default_output_path("dir/.hidden"), "dir/.hidden.pdf");
}

#[test]
fn default_output_path_trailing_separator_and_dot() {
    assert_eq!(default_output_path("docs/readme.md/"), "docs/readme.pdf");
    assert_eq!(default_output_path("docs/readme.md/."), "docs/readme.pdf");
}

#[test]
fn default_output_path_without_file_name_is_unchanged() {
    assert_eq!(default_output_path("/"), "/");
    assert_eq!(default_output_path(".."), "..");
    assert_eq!(default_output_path("a/.."), "a/..");
    assert_eq!(default_output_path("."), ".");
    assert_eq!(default_output_path(""), "");
}

#[test]
fn default_output_path_is_idempotent() {
    for p in ["doc.md", "README", ".bashrc", "a/b.c.d", "x/", "..", "a."] {
        let once = default_output_path(p);
        assert_eq!(default_output_path(&once), once);
    }
}

// --- Dry run details ---

#[test]
fn dry_run_exact_layout_without_preamble() {
    let cli = Cli::default();
    let output = format_dry_run("héllo", &cli, None);
    let expected = format!(
        "// sys.inputs:\n//   content: <6 bytes>\n//   font-size: 11pt\n//   margin: 1in\n//   number-sections: false\n//   toc: false\n\n{TEMPLATE}"
    );
    assert_eq!(output, expected);
}

#[test]
fn dry_run_with_preamble_text() {
    let cli = Cli {
        include_preamble: Some("extra.typ".to_string()),
        toc: true,
        ..Cli::default()
    };
    let output = format_dry_run("", &cli, Some("#set text(red)"));
    assert!(output.contains("//   toc: true\n"));
    assert!(output.contains("\n// preamble: extra.typ\n#set text(red)\n\n#import"));
    assert!(output.contains("<0 bytes>"));
}

#[test]
fn dry_run_with_unreadable_preamble_shows_path_only() {
    let cli = Cli {
        include_preamble: Some("missing.typ".to_string()),
        ..Cli::default()
    };
    let output = format_dry_run("x", &cli, None);
    assert!(output.contains("\n// preamble: missing.typ\n#import"));
}

#[test]
fn dry_run_ignores_preamble_text_without_configured_path() {
    let cli = Cli::default();
    let output = format_dry_run("x", &cli, Some("ignored"));
    assert!(!output.contains("ignored"));
    assert!(!output.contains("preamble"));
}

// --- Template inputs and source ---

#[test]
fn compile_inputs_lists_prepared_content_and_layout() {
    let cli = Cli {
        number_sections: true,
        font_size: "12pt".to_string(),
        ..Cli::default()
    };
    let inputs = compile_inputs("---\na: b\n---\nx \\dashleftarrow y", &cli);
    let expected: Vec<(String, String)> = vec![
        ("content".into(), "x \u{21E0} y".into()),
        ("margin".into(), "1in".into()),
        ("font-size".into(), "12pt".into()),
        ("toc".into(), "false".into()),
        ("number-sections".into(), "true".into()),
    ];
    assert_eq!(inputs, expected);
}

#[test]
fn full_template_puts_preamble_first() {
    assert_eq!(full_template(None), TEMPLATE);
    assert_eq!(full_template(Some("#let x = 1")), format!("#let x = 1\n{TEMPLATE}"));
}
