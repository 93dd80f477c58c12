use mdpdf::cli::{parse_dimension, Cli};

#[test]
fn cli_defaults() {
    let cli = Cli::default();
    assert!(cli.files.is_empty());
    assert!(cli.output.is_none());
    assert!(!cli.toc);
    assert!(!cli.number_sections);
    assert_eq!(cli.margin, "1in");
    assert_eq!(cli.font_size, "11pt");
    assert!(cli.include_preamble.is_none());
    assert!(!cli.json);
    assert!(!cli.dry_run);
    assert!(!cli.verbose);
    assert_eq!(cli.jobs, 8);
}

#[test]
fn dimension_accepts_each_unit() {
    for s in ["1in", "2cm", "25mm", "11pt", "1.5em"] {
        assert_eq!(parse_dimension(s), Ok(s.to_string()));
    }
}

#[test]
fn dimension_trims_and_returns_trimmed() {
    assert_eq!(parse_dimension("  0.75in\t"), Ok("0.75in".to_string()));
    assert_eq!(parse_dimension("1 in"), Ok("1 in".to_string()));
}

#[test]
fn dimension_number_forms() {
    for s in [".5in", "5.in", "+1pt", "-2cm", "1e2pt", "1E-2mm", "infin", "NaNpt", "Infinitypt"] {
        assert!(parse_dimension(s).is_ok(), "{s}");
    }
}

#[test]
fn dimension_rejections() {
    for s in ["", "in", ".in", "1e in", "1px", "abc", "1 2in", "--1in", "1e+in", "inch"] {
        assert!(parse_dimension(s).is_err(), "{s}");
    }
}

#[test]
fn dimension_error_message() {
    assert_eq!(
        parse_dimension(" 12 parsecs "),
        Err("invalid dimension '12 parsecs': expected <number><unit> (e.g. 1in, 0.75in, 2cm, 11pt)"
            .to_string())
    );
}

#[test]
fn accepted_dimension_reparses_to_itself() {
    for s in [" 1in ", "\u{2003}3.5cm\n", "2 pt"] {
        let once = parse_dimension(s).unwrap();
        assert_eq!(parse_dimension(&once), Ok(once.clone()));
    }
}
