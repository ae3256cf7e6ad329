use formula_editor::{normalize_formulas, normalize_templates, Json, NormalizeError};

fn s(x: &str) -> Json {
    Json::Str(x.to_string())
}

fn obj(pairs: Vec<(&str, Json)>) -> Json {
    Json::Object(pairs.into_iter().map(|(k, v)| (k.to_string(), v)).collect())
}

#[test]
fn formulas_keep_trimmed_latex_and_defaults() {
    let v = Json::Array(vec![
        obj(vec![("latex", s("  x^2  ")), ("note", s("  hi "))]),
        obj(vec![("latex", s("y")), ("id", s(" f-9 ")), ("index", Json::UInt(42))]),
    ]);
    let out = normalize_formulas(&v).unwrap();
    assert_eq!(out.len(), 2);
    assert_eq!(out[0].latex, "x^2");
    assert_eq!(out[0].id, "formula-1");
    assert_eq!(out[0].index, 1);
    assert_eq!(out[0].note, Some("hi".to_string()));
    assert_eq!(out[1].latex, "y");
    assert_eq!(out[1].id, "f-9");
    assert_eq!(out[1].index, 42);
    assert_eq!(out[1].note, None);
}

#[test]
fn formulas_drop_missing_or_blank_latex() {
    let v = Json::Array(vec![
        obj(vec![("note", s("no latex"))]),
        obj(vec![("latex", s("   "))]),
        obj(vec![("latex", Json::UInt(3))]),
        s("not an object"),
        obj(vec![("latex", s("kept")), ("note", s("   "))]),
    ]);
    let out = normalize_formulas(&v).unwrap();
    assert_eq!(out.len(), 1);
    assert_eq!(5 - out.len(), 4);
    assert_eq!(out[0].latex, "kept");
    assert_eq!(out[0].id, "formula-5");
    assert_eq!(out[0].index, 5);
    assert_eq!(out[0].note, None);
}

#[test]
fn formulas_bad_index_falls_back_to_position() {
    let v = Json::Array(vec![
        obj(vec![("latex", s("a")), ("index", Json::OtherNumber)]),
        obj(vec![("latex", s("b")), ("index", s("7"))]),
    ]);
    let out = normalize_formulas(&v).unwrap();
    assert_eq!(out[0].index, 1);
    assert_eq!(out[1].index, 2);
}

#[test]
fn formulas_empty_array() {
    assert!(normalize_formulas(&Json::Array(vec![])).unwrap().is_empty());
}

#[test]
fn formulas_template_library_is_wrong_kind() {
    let v = obj(vec![("categories", Json::Array(vec![]))]);
    assert_eq!(normalize_formulas(&v).unwrap_err(), NormalizeError::WrongKind);
    let w = obj(vec![("categories", Json::Null), ("x", Json::Bool(true))]);
    assert_eq!(normalize_formulas(&w).unwrap_err(), NormalizeError::WrongKind);
}

#[test]
fn formulas_other_values_are_wrong_shape() {
    assert_eq!(normalize_formulas(&obj(vec![("a", s("b"))])).unwrap_err(), NormalizeError::WrongShape);
    assert_eq!(normalize_formulas(&Json::Null).unwrap_err(), NormalizeError::WrongShape);
    assert_eq!(normalize_formulas(&s("categories")).unwrap_err(), NormalizeError::WrongShape);
}

#[test]
fn error_messages() {
    assert_eq!(NormalizeError::InvalidJson.message(), "文件内容不是有效的 JSON 格式");
    assert_eq!(NormalizeError::WrongKind.message(), "这是模板库文件，请使用“绑定模板”功能导入");
    assert_eq!(NormalizeError::WrongShape.message(), "文件格式错误：公式集必须是 JSON 数组");
}

#[test]
fn formulas_normalize_again_unchanged() {
    let v = Json::Array(vec![
        obj(vec![("latex", s(" a ")), ("note", s(" n "))]),
        obj(vec![("id", s("x"))]),
        obj(vec![("latex", s("b")), ("index", Json::UInt(9))]),
    ]);
    let first = normalize_formulas(&v).unwrap();
    let again = Json::Array(
        first
            .iter()
            .map(|e| {
                obj(vec![
                    ("id", s(&e.id)),
                    ("index", Json::UInt(e.index as u64)),
                    ("latex", s(&e.latex)),
                    ("note", match &e.note { Some(n) => s(n), None => Json::Null }),
                ])
            })
            .collect(),
    );
    let second = normalize_formulas(&again).unwrap();
    assert_eq!(first.len(), second.len());
    for (a, b) in first.iter().zip(second.iter()) {
        assert_eq!(a.id, b.id);
        assert_eq!(a.index, b.index);
        assert_eq!(a.latex, b.latex);
        assert_eq!(a.note, b.note);
    }
}

#[test]
fn templates_wrapper_and_defaults() {
    let v = obj(vec![(
        "categories",
        Json::Array(vec![obj(vec![
            ("templates", Json::Array(vec![
                obj(vec![("latex", s(" \\frac{a}{b} "))]),
                obj(vec![("name", s("skip me"))]),
                obj(vec![("latex", s("c")), ("name", s(" N ")), ("id", s(" t1 ")), ("note", s("z"))]),
            ])),
        ])]),
    )]);
    let lib = normalize_templates(&v);
    assert_eq!(lib.categories.len(), 1);
    let c = &lib.categories[0];
    assert_eq!(c.id, "category-1-1");
    assert_eq!(c.name, "分类 1");
    assert_eq!(c.parent_id, None);
    assert_eq!(c.templates.len(), 2);
    assert_eq!(c.templates[0].id, "template-category-1-1-1");
    assert_eq!(c.templates[0].name, "模板 1");
    assert_eq!(c.templates[0].latex, "\\frac{a}{b}");
    assert_eq!(c.templates[1].id, "t1");
    assert_eq!(c.templates[1].name, "N");
    assert_eq!(c.templates[1].note, Some("z".to_string()));
    assert_eq!(lib.selected_category_id, "category-1-1");
}

#[test]
fn templates_bare_array_pre_order_and_parents() {
    let v = Json::Array(vec![
        obj(vec![
            ("id", s("a")),
            ("name", s("A")),
            ("children", Json::Array(vec![
                obj(vec![("id", s("a1"))]),
                obj(vec![("categories", Json::Array(vec![obj(vec![])]))]),
            ])),
        ]),
        obj(vec![("id", s("b")), ("parentId", s(" elsewhere "))]),
    ]);
    let lib = normalize_templates(&v);
    let ids: Vec<&str> = lib.categories.iter().map(|c| c.id.as_str()).collect();
    assert_eq!(ids, vec!["a", "a1", "category-2-2", "category-3-1", "b"]);
    let parents: Vec<Option<&str>> = lib.categories.iter().map(|c| c.parent_id.as_deref()).collect();
    assert_eq!(parents, vec![None, Some("a"), Some("a"), Some("category-2-2"), Some("elsewhere")]);
    assert_eq!(lib.categories[1].name, "分类 1");
    assert_eq!(lib.categories[2].name, "分类 2");
    assert_eq!(lib.selected_category_id, "a");
}

#[test]
fn templates_categories_preferred_over_children() {
    let v = Json::Array(vec![obj(vec![
        ("id", s("p")),
        ("categories", Json::Array(vec![obj(vec![("id", s("from-categories"))])])),
        ("children", Json::Array(vec![obj(vec![("id", s("from-children"))])])),
    ])]);
    let lib = normalize_templates(&v);
    assert_eq!(lib.categories.len(), 2);
    assert_eq!(lib.categories[1].id, "from-categories");
}

#[test]
fn templates_depth_is_cut_after_six_levels() {
    let mut v = Json::Array(vec![]);
    for level in (1..=10).rev() {
        v = Json::Array(vec![obj(vec![("id", s(&format!("L{}", level))), ("children", v)])]);
    }
    let lib = normalize_templates(&v);
    let ids: Vec<&str> = lib.categories.iter().map(|c| c.id.as_str()).collect();
    assert_eq!(ids, vec!["L1", "L2", "L3", "L4", "L5", "L6"]);
}

#[test]
fn templates_synthesized_ids_can_repeat_across_branches() {
    let v = Json::Array(vec![
        obj(vec![("id", s("x")), ("children", Json::Array(vec![obj(vec![])]))]),
        obj(vec![("id", s("y")), ("children", Json::Array(vec![obj(vec![])]))]),
    ]);
    let lib = normalize_templates(&v);
    assert_eq!(lib.categories[1].id, "category-2-1");
    assert_eq!(lib.categories[3].id, "category-2-1");
}

#[test]
fn templates_empty_or_not_an_array() {
    let lib = normalize_templates(&Json::Array(vec![]));
    assert!(lib.categories.is_empty());
    assert_eq!(lib.selected_category_id, "");
    let lib = normalize_templates(&obj(vec![("x", Json::UInt(1))]));
    assert!(lib.categories.is_empty());
    assert_eq!(lib.selected_category_id, "");
    let lib = normalize_templates(&obj(vec![("categories", s("nope"))]));
    assert!(lib.categories.is_empty());
}
