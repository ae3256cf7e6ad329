//! Rendering of a formula collection as a LaTeX document or as Markdown.

use vstd::prelude::*;
use crate::formulas::opt_view;
use crate::text::{decimal, escaped, trimmed, escape_latex_text, trim_text, chars_of, push_decimal, push_str, string_of};

verus! {

/// A formula to render: its LaTeX body and an optional note.
#[derive(Debug)]
pub struct FormulaItem {
    pub latex: String,
    pub note: Option<String>,
}

/// A formula to render, as plain values.
pub struct FormulaItemView {
    pub latex: Seq<char>,
    pub note: Option<Seq<char>>,
}

impl View for FormulaItem {
    type V = FormulaItemView;

    open spec fn view(&self) -> FormulaItemView {
        FormulaItemView { latex: self.latex@, note: opt_view(self.note) }
    }
}

/// The views of a sequence of items.
pub open spec fn items_view(s: Seq<FormulaItem>) -> Seq<FormulaItemView> {
    s.map_values(|i: FormulaItem| i@)
}

/// The note that is shown: the trimmed note, when it is not blank.
pub open spec fn shown_note(note: Option<Seq<char>>) -> Option<Seq<char>> {
    match note {
        Some(n) => if trimmed(n).len() > 0 {
            Some(trimmed(n))
        } else {
            None
        },
        None => None,
    }
}

/// What stands between two rendered formulas: a blank line.
pub open spec fn block_separator() -> Seq<char> {
    "\n\n"@
}

/// The text before the body of a LaTeX document.
pub open spec fn latex_preamble() -> Seq<char> {
    "\\documentclass{article}\n\\usepackage{amsmath}\n\\usepackage{ctex}\n\\begin{document}\n"@
}

/// The text after the body of a LaTeX document.
pub open spec fn latex_postamble() -> Seq<char> {
    "\n\\end{document}\n"@
}

/// The escaped note in bold on a line of its own, if one is shown.
pub open spec fn latex_note_line(note: Option<Seq<char>>) -> Seq<char> {
    match shown_note(note) {
        Some(t) => "\\noindent\\textbf{"@ + escaped(t) + "}\\\\\n"@,
        None => Seq::empty(),
    }
}

/// The note in bold as a paragraph of its own, if one is shown.
pub open spec fn markdown_note_line(note: Option<Seq<char>>) -> Seq<char> {
    match shown_note(note) {
        Some(t) => "**"@ + t + "**\n\n"@,
        None => Seq::empty(),
    }
}

/// The LaTeX of the formula numbered `n`: its escaped note in bold, if it has
/// one, then its body in an equation labelled `eq:n`.
pub open spec fn latex_block(item: FormulaItemView, n: nat) -> Seq<char> {
    latex_note_line(item.note) + "\\begin{equation}\\label{eq:"@ + decimal(n) + "}\n"@ + item.latex + "\n\\end{equation}"@
}

/// The Markdown of the formula numbered `n`: a heading, its note in bold if it
/// has one, then its body between display-math fences.
pub open spec fn markdown_block(item: FormulaItemView, n: nat) -> Seq<char> {
    "### 公式 "@ + decimal(n) + "\n\n"@ + markdown_note_line(item.note) + "$$\n\n"@ + item.latex + "\n\n$$"@
}

/// The LaTeX blocks of the first `k` items, numbered from 1, each pair apart by a blank line.
pub open spec fn latex_body(items: Seq<FormulaItemView>, k: nat) -> Seq<char>
    decreases k,
{
    if k == 0 {
        Seq::empty()
    } else if k == 1 {
        latex_block(items[0], 1)
    } else {
        latex_body(items, (k - 1) as nat) + block_separator() + latex_block(items[k - 1], k)
    }
}

/// The Markdown blocks of the first `k` items, numbered from 1, each pair apart by a blank line.
pub open spec fn markdown_body(items: Seq<FormulaItemView>, k: nat) -> Seq<char>
    decreases k,
{
    if k == 0 {
        Seq::empty()
    } else if k == 1 {
        markdown_block(items[0], 1)
    } else {
        markdown_body(items, (k - 1) as nat) + block_separator() + markdown_block(items[k - 1], k)
    }
}

/// The LaTeX document of `items`; empty when there are none.
pub open spec fn latex_document(items: Seq<FormulaItemView>) -> Seq<char> {
    if items.len() == 0 {
        Seq::empty()
    } else {
        latex_preamble() + latex_body(items, items.len()) + latex_postamble()
    }
}

/// The Markdown text of `items`; empty when there are none.
pub open spec fn markdown_document(items: Seq<FormulaItemView>) -> Seq<char> {
    markdown_body(items, items.len())
}

fn note_shown(note: &Option<String>) -> (r: Option<String>)
    ensures
        opt_view(r) == shown_note(opt_view(*note)),
{
    match note {
        Some(n) => {
            let t = trim_text(n.as_str());
            if t.as_str().is_empty() {
                None
            } else {
                Some(t)
            }
        },
        None => None,
    }
}

fn push_string(out: &mut Vec<char>, s: &String)
    ensures
        final(out)@ == old(out)@ + s@,
{
    let mut v = chars_of(s.as_str());
    out.append(&mut v);
}

fn push_latex_block(out: &mut Vec<char>, item: &FormulaItem, n: usize)
    ensures
        final(out)@ == old(out)@ + latex_block(item@, n as nat),
{
    let ghost start = out@;
    match note_shown(&item.note) {
        Some(t) => {
            push_str(out, "\\noindent\\textbf{");
            push_string(out, &escape_latex_text(t.as_str()));
            push_str(out, "}\\\\\n");
        },
        None => {},
    }
    push_str(out, "\\begin{equation}\\label{eq:");
    push_decimal(out, n);
    push_str(out, "}\n");
    push_string(out, &item.latex);
    push_str(out, "\n\\end{equation}");
    proof {
        assert(out@ == start + latex_block(item@, n as nat));
    }
}

fn push_markdown_block(out: &mut Vec<char>, item: &FormulaItem, n: usize)
    ensures
        final(out)@ == old(out)@ + markdown_block(item@, n as nat),
{
    let ghost start = out@;
    push_str(out, "### 公式 ");
    push_decimal(out, n);
    push_str(out, "\n\n");
    match note_shown(&item.note) {
        Some(t) => {
            push_str(out, "**");
            push_string(out, &t);
            push_str(out, "**\n\n");
        },
        None => {},
    }
    push_str(out, "$$\n\n");
    push_string(out, &item.latex);
    push_str(out, "\n\n$$");
    proof {
        assert(out@ == start + markdown_block(item@, n as nat));
    }
}

/// Renders `formulas` as a LaTeX document: empty for no formulas, else the
/// numbered equations, each after its escaped note, inside an article.
pub fn format_latex(formulas: &Vec<FormulaItem>) -> (r: String)
    ensures
        r@ == latex_document(items_view(formulas@)),
{
    if formulas.len() == 0 {
        return String::new();
    }
    let ghost items = items_view(formulas@);
    let mut out: Vec<char> = Vec::new();
    push_str(&mut out, "\\documentclass{article}\n\\usepackage{amsmath}\n\\usepackage{ctex}\n\\begin{document}\n");
    let mut i: usize = 0;
    while i < formulas.len()
        invariant
            i <= formulas@.len(),
            items == items_view(formulas@),
            out@ == latex_preamble() + latex_body(items, i as nat),
        decreases formulas@.len() - i,
    {
        if i > 0 {
            push_str(&mut out, "\n\n");
        }
        push_latex_block(&mut out, &formulas[i], i + 1);
        i = i + 1;
    }
    push_str(&mut out, "\n\\end{document}\n");
    string_of(&out)
}

/// Renders `formulas` as Markdown: for each, a numbered heading, its note in
/// bold if any, and its body between `$$` fences; empty for no formulas.
pub fn format_markdown(formulas: &Vec<FormulaItem>) -> (r: String)
    ensures
        r@ == markdown_document(items_view(formulas@)),
{
    let ghost items = items_view(formulas@);
    let mut out: Vec<char> = Vec::new();
    let mut i: usize = 0;
    while i < formulas.len()
        invariant
            i <= formulas@.len(),
            items == items_view(formulas@),
            out@ == markdown_body(items, i as nat),
        decreases formulas@.len() - i,
    {
        if i > 0 {
            push_str(&mut out, "\n\n");
        }
        push_markdown_block(&mut out, &formulas[i], i + 1);
        i = i + 1;
    }
    string_of(&out)
}

} // verus!
