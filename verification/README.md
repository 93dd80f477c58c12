# mdpdf

Markdown-to-PDF transducer: markdown in, a typeset PDF out, rendered with an
embedded typst engine (cmarker for markdown, mitex for LaTeX math).

## Layout

- `src/` — the library, verified with Verus.
  - `text.rs`: character-level toolkit (trimming, searching, replacing,
    lines, decimal numbers) with its specifications.
  - `cli.rs`: the settings of an invocation and the validation of dimension
    arguments such as `0.75in`.
  - `render.rs`: front-matter removal, the dashed-arrow fix, output naming,
    the template inputs, the main typst source and the dry-run view, with the
    laws they satisfy.
  - `typeset.rs`: compiling with the typst engine and exporting the PDF.
  - `report.rs`: the per-file result and its human-readable summary.
  - `run.rs`: what an invocation does with its settings, and how results turn
    into a summary and an exit status.
  - `template.rs`: the typst template.
- `app/` — the command-line program: argument parsing (clap), file and
  terminal I/O, the typst engine with its embedded fonts and packages, JSON
  output (serde) and parallel batches (rayon).
- `tests/` — tests of the library.

The package archives `app/typst-packages/preview/cmarker-0.1.8.tar.gz` and
`app/typst-packages/preview/mitex-0.2.6.tar.gz` are embedded into the program
when it is built.
