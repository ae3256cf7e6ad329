use formula_editor::escape_latex_text;

#[test]
fn escape_each_special_alone() {
    for c in ['\\', '#', '%', '&', '_', '$', '^', '{', '}'] {
        let s = c.to_string();
        assert_eq!(escape_latex_text(&s), format!("\\{}", c));
    }
}

#[test]
fn escape_plain_text_unchanged() {
    assert_eq!(escape_latex_text("abc xyz"), "abc xyz");
    assert_eq!(escape_latex_text(""), "");
    assert_eq!(escape_latex_text("中文 ~"), "中文 ~");
}

#[test]
fn escape_mixed_text() {
    assert_eq!(escape_latex_text("50% of $x_1$"), "50\\% of \\$x\\_1\\$");
    assert_eq!(escape_latex_text("{a}&#^"), "\\{a\\}\\&\\#\\^");
}

#[test]
fn escape_twice_escapes_backslashes_again() {
    let once = escape_latex_text("_");
    assert_eq!(once, "\\_");
    let twice = escape_latex_text(&once);
    assert_eq!(twice, "\\\\\\_");
    assert_eq!(escape_latex_text("\\alpha"), "\\\\alpha");
}

#[test]
fn escape_is_deterministic() {
    assert_eq!(escape_latex_text("a_b%c"), escape_latex_text("a_b%c"));
}
