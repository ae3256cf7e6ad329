use formula_editor::{format_latex, format_markdown, FormulaItem};

fn item(latex: &str, note: Option<&str>) -> FormulaItem {
    FormulaItem { latex: latex.to_string(), note: note.map(|n| n.to_string()) }
}

#[test]
fn empty_collections_render_empty() {
    assert_eq!(format_latex(&vec![]), "");
    assert_eq!(format_markdown(&vec![]), "");
}

#[test]
fn latex_single_formula_with_note() {
    let doc = format_latex(&vec![item("x=1", Some("Note_1"))]);
    assert_eq!(
        doc,
        "\\documentclass{article}\n\\usepackage{amsmath}\n\\usepackage{ctex}\n\\begin{document}\n\\noindent\\textbf{Note\\_1}\\\\\n\\begin{equation}\\label{eq:1}\nx=1\n\\end{equation}\n\\end{document}\n"
    );
    assert!(doc.contains("Note\\_1"));
    assert!(doc.contains("\\label{eq:1}\nx=1\n"));
}

#[test]
fn latex_numbers_by_position_and_skips_blank_notes() {
    let doc = format_latex(&vec![item("a", Some("   ")), item("b_c", None), item("d", Some("  n  "))]);
    assert_eq!(
        doc,
        "\\documentclass{article}\n\\usepackage{amsmath}\n\\usepackage{ctex}\n\\begin{document}\n\\begin{equation}\\label{eq:1}\na\n\\end{equation}\n\n\\begin{equation}\\label{eq:2}\nb_c\n\\end{equation}\n\n\\noindent\\textbf{n}\\\\\n\\begin{equation}\\label{eq:3}\nd\n\\end{equation}\n\\end{document}\n"
    );
}

#[test]
fn latex_labels_past_nine() {
    let items: Vec<FormulaItem> = (0..12).map(|i| item(&format!("y={}", i), None)).collect();
    let doc = format_latex(&items);
    assert!(doc.contains("\\label{eq:10}\ny=9\n"));
    assert!(doc.contains("\\label{eq:12}\ny=11\n"));
}

#[test]
fn markdown_two_formulas() {
    let md = format_markdown(&vec![item("a+b", None), item("c+d", Some("two"))]);
    assert_eq!(md, "### 公式 1\n\n$$\n\na+b\n\n$$\n\n### 公式 2\n\n**two**\n\n$$\n\nc+d\n\n$$");
    let first = md.find("### 公式 1").unwrap();
    let second = md.find("### 公式 2").unwrap();
    assert!(first < second);
    let bold = md.find("**two**").unwrap();
    assert!(second < bold && bold < md.rfind("$$\n\nc+d").unwrap());
}

#[test]
fn markdown_note_is_trimmed_and_not_escaped() {
    let md = format_markdown(&vec![item("x", Some("  a_b  "))]);
    assert_eq!(md, "### 公式 1\n\n**a_b**\n\n$$\n\nx\n\n$$");
}
