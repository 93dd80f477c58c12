//! The typst template that lays out a markdown document.

use vstd::prelude::*;

verus! {

/// The typst template. It reads `sys.inputs` (`content`, `margin`,
/// `font-size`, `toc`, `number-sections`), renders the markdown with cmarker
/// and its math with mitex, numbers headings on request, sets table cells
/// ragged right with hyphenation, and gives inline code longer than twelve
/// characters break opportunities after separators and before capitals.
pub const TEMPLATE: &'static str = r#"#import "@preview/cmarker:0.1.8"
#import "@preview/mitex:0.2.6": mitex

#let inputs = sys.inputs
#let flag(name) = inputs.at(name, default: "false") == "true"

#set page(margin: eval(inputs.at("margin", default: "1in")), numbering: "1")
#set text(size: eval(inputs.at("font-size", default: "11pt")))
#set par(justify: true)
#set heading(numbering: if flag("number-sections") { "1.1" } else { none })

#show table.cell: set par(justify: false)
#show table.cell: set text(hyphenate: true)

#let zwsp = "\u{200B}"
#let soften(s) = {
  let t = s.replace(regex("([./:_-])"), m => m.text + zwsp)
  t.replace(regex("([a-z0-9])([A-Z])"), m => m.captures.at(0) + zwsp + m.captures.at(1))
}
#show raw.where(block: false): it => {
  if it.text.clusters().len() > 12 and not it.text.contains(zwsp) {
    raw(soften(it.text), lang: it.lang)
  } else {
    it
  }
}

#if flag("toc") {
  outline()
  pagebreak()
}

#cmarker.render(inputs.content, math: mitex)
"#;

} // verus!
