//! Normalization of a template library: a forest of categories flattened in
//! pre-order, each holding its templates.

use vstd::prelude::*;
use crate::formulas::opt_view;
use crate::json::{Json, field, trimmed_field, trimmed_field_of};
use crate::text::{decimal, lemma_decimal_last, push_decimal, push_str, string_of, chars_of};

verus! {

/// The deepest level of categories that is read; deeper ones are left out.
pub const MAX_DEPTH: usize = 6;

/// One template of a category.
#[derive(Debug)]
pub struct TemplateItem {
    pub id: String,
    pub name: String,
    pub latex: String,
    pub note: Option<String>,
}

/// A template as plain values.
pub struct TemplateItemView {
    pub id: Seq<char>,
    pub name: Seq<char>,
    pub latex: Seq<char>,
    pub note: Option<Seq<char>>,
}

impl View for TemplateItem {
    type V = TemplateItemView;

    open spec fn view(&self) -> TemplateItemView {
        TemplateItemView {
            id: self.id@,
            name: self.name@,
            latex: self.latex@,
            note: opt_view(self.note),
        }
    }
}

/// One category; `parent_id` refers to another category by its id.
#[derive(Debug)]
pub struct TemplateCategory {
    pub id: String,
    pub name: String,
    pub templates: Vec<TemplateItem>,
    pub parent_id: Option<String>,
}

/// A category as plain values.
pub struct TemplateCategoryView {
    pub id: Seq<char>,
    pub name: Seq<char>,
    pub templates: Seq<TemplateItemView>,
    pub parent_id: Option<Seq<char>>,
}

/// The views of a sequence of templates.
pub open spec fn items_view(s: Seq<TemplateItem>) -> Seq<TemplateItemView> {
    s.map_values(|t: TemplateItem| t@)
}

impl View for TemplateCategory {
    type V = TemplateCategoryView;

    open spec fn view(&self) -> TemplateCategoryView {
        TemplateCategoryView {
            id: self.id@,
            name: self.name@,
            templates: items_view(self.templates@),
            parent_id: opt_view(self.parent_id),
        }
    }
}

/// The views of a sequence of categories.
pub open spec fn categories_view(s: Seq<TemplateCategory>) -> Seq<TemplateCategoryView> {
    s.map_values(|c: TemplateCategory| c@)
}

/// A normalized template library.
#[derive(Debug)]
pub struct TemplateLibrary {
    pub categories: Vec<TemplateCategory>,
    pub selected_category_id: String,
}

/// The template at position `tidx` of the category `cat_id`; nothing when its
/// `latex` is missing or blank.
pub open spec fn template_of(tpl: Json, tidx: nat, cat_id: Seq<char>) -> Option<TemplateItemView> {
    match trimmed_field(tpl, "latex"@) {
        None => None,
        Some(latex) => Some(
            TemplateItemView {
                id: match trimmed_field(tpl, "id"@) {
                    Some(id) => id,
                    None => "template-"@ + cat_id + "-"@ + decimal(tidx + 1),
                },
                name: match trimmed_field(tpl, "name"@) {
                    Some(name) => name,
                    None => "模板 "@ + decimal(tidx + 1),
                },
                latex,
                note: trimmed_field(tpl, "note"@),
            },
        ),
    }
}

/// The templates of the first `k` elements of `tpls`, in order.
pub open spec fn templates_upto(tpls: Seq<Json>, cat_id: Seq<char>, k: nat) -> Seq<TemplateItemView>
    decreases k,
{
    if k == 0 {
        Seq::empty()
    } else {
        let prev = templates_upto(tpls, cat_id, (k - 1) as nat);
        match template_of(tpls[k - 1], (k - 1) as nat, cat_id) {
            Some(t) => prev.push(t),
            None => prev,
        }
    }
}

/// The templates of a category: those of its `templates` array, if it has one.
pub open spec fn templates_of(cat: Json, cat_id: Seq<char>) -> Seq<TemplateItemView> {
    match field(cat, "templates"@) {
        Some(Json::Array(tpls)) => templates_upto(tpls@, cat_id, tpls@.len()),
        _ => Seq::empty(),
    }
}

/// The id of the category at position `idx` on level `depth`.
pub open spec fn category_id(cat: Json, idx: nat, depth: nat) -> Seq<char> {
    match trimmed_field(cat, "id"@) {
        Some(id) => id,
        None => "category-"@ + decimal(depth) + "-"@ + decimal(idx + 1),
    }
}

/// The category at position `idx` on level `depth`, under `parent`.
pub open spec fn category_of(cat: Json, idx: nat, depth: nat, parent: Option<Seq<char>>) -> TemplateCategoryView {
    let id = category_id(cat, idx, depth);
    TemplateCategoryView {
        id,
        name: match trimmed_field(cat, "name"@) {
            Some(name) => name,
            None => "分类 "@ + decimal(idx + 1),
        },
        templates: templates_of(cat, id),
        parent_id: match trimmed_field(cat, "parentId"@) {
            Some(p) => Some(p),
            None => parent,
        },
    }
}

/// Where the children of a category stand: `categories`, else `children`.
pub open spec fn children_of(cat: Json) -> Option<Json> {
    match field(cat, "categories"@) {
        Some(c) => Some(c),
        None => field(cat, "children"@),
    }
}

/// The categories of the array `v` on level `depth` and of all their
/// descendants down to level `MAX_DEPTH`, in pre-order.
pub open spec fn walk(v: Json, parent: Option<Seq<char>>, depth: nat) -> Seq<TemplateCategoryView>
    decreases 7 - depth, 1int, 0int,
{
    if depth > 6 {
        Seq::empty()
    } else {
        match v {
            Json::Array(cats) => walk_list(cats@, parent, depth, cats@.len()),
            _ => Seq::empty(),
        }
    }
}

/// The pre-order walk of the first `k` categories of `cats`.
pub open spec fn walk_list(cats: Seq<Json>, parent: Option<Seq<char>>, depth: nat, k: nat) -> Seq<TemplateCategoryView>
    decreases 7 - depth, 0int, k,
{
    if depth > 6 || k == 0 {
        Seq::empty()
    } else {
        let cat = cats[k - 1];
        let idx = (k - 1) as nat;
        let prev = walk_list(cats, parent, depth, idx).push(category_of(cat, idx, depth, parent));
        match children_of(cat) {
            Some(c) => prev + walk(c, Some(category_id(cat, idx, depth)), depth + 1),
            None => prev,
        }
    }
}

/// The array of categories of a library: its `categories` field, else the value itself.
pub open spec fn library_root(v: Json) -> Json {
    match field(v, "categories"@) {
        Some(c) => c,
        None => v,
    }
}

/// The categories of the library `v`, flattened in pre-order.
pub open spec fn library_categories(v: Json) -> Seq<TemplateCategoryView> {
    walk(library_root(v), None, 1)
}

/// The level of each category that `walk(v, _, depth)` gives, in the same order.
pub open spec fn walk_levels(v: Json, depth: nat) -> Seq<nat>
    decreases 7 - depth, 1int, 0int,
{
    if depth > 6 {
        Seq::empty()
    } else {
        match v {
            Json::Array(cats) => walk_list_levels(cats@, depth, cats@.len()),
            _ => Seq::empty(),
        }
    }
}

/// The level of each category that `walk_list(cats, _, depth, k)` gives, in the same order.
pub open spec fn walk_list_levels(cats: Seq<Json>, depth: nat, k: nat) -> Seq<nat>
    decreases 7 - depth, 0int, k,
{
    if depth > 6 || k == 0 {
        Seq::empty()
    } else {
        let cat = cats[k - 1];
        let prev = walk_list_levels(cats, depth, (k - 1) as nat).push(depth);
        match children_of(cat) {
            Some(c) => prev + walk_levels(c, depth + 1),
            None => prev,
        }
    }
}

/// The walk reads no level below `MAX_DEPTH`, however deep the input: each
/// category it gives stands on a level from `depth` to 6, and has an id that
/// is not empty.
pub proof fn lemma_walk_depth(v: Json, parent: Option<Seq<char>>, depth: nat)
    ensures
        walk_levels(v, depth).len() == walk(v, parent, depth).len(),
        forall|i: int|
            0 <= i < walk_levels(v, depth).len() ==> depth <= #[trigger] walk_levels(v, depth)[i]
                <= 6,
        forall|i: int| 0 <= i < walk(v, parent, depth).len() ==> (#[trigger] walk(v, parent, depth)[i]).id.len() > 0,
    decreases 7 - depth, 1int, 0int,
{
    if depth <= 6 {
        if let Json::Array(cats) = v {
            lemma_walk_list_depth(cats@, parent, depth, cats@.len());
        }
    }
}

/// `lemma_walk_depth` for the first `k` categories of `cats`.
pub proof fn lemma_walk_list_depth(cats: Seq<Json>, parent: Option<Seq<char>>, depth: nat, k: nat)
    ensures
        walk_list_levels(cats, depth, k).len() == walk_list(cats, parent, depth, k).len(),
        forall|i: int|
            0 <= i < walk_list_levels(cats, depth, k).len() ==> depth <= #[trigger] walk_list_levels(
                cats,
                depth,
                k,
            )[i] <= 6,
        forall|i: int|
            0 <= i < walk_list(cats, parent, depth, k).len() ==> (#[trigger] walk_list(
                cats,
                parent,
                depth,
                k,
            )[i]).id.len() > 0,
    decreases 7 - depth, 0int, k,
{
    if depth <= 6 && k > 0 {
        let cat = cats[k - 1];
        let idx = (k - 1) as nat;
        lemma_walk_list_depth(cats, parent, depth, idx);
        lemma_decimal_last(idx + 1);
        let id = category_id(cat, idx, depth);
        assert(id.len() > 0);
        let pl = walk_list_levels(cats, depth, idx).push(depth);
        let pw = walk_list(cats, parent, depth, idx).push(category_of(cat, idx, depth, parent));
        assert forall|i: int| 0 <= i < pw.len() implies (#[trigger] pw[i]).id.len() > 0 by {
            if i < pw.len() - 1 {
                assert(pw[i] == walk_list(cats, parent, depth, idx)[i]);
            }
        }
        assert forall|i: int| 0 <= i < pl.len() implies depth <= #[trigger] pl[i] <= 6 by {
            if i < pl.len() - 1 {
                assert(pl[i] == walk_list_levels(cats, depth, idx)[i]);
            }
        }
        if let Some(c) = children_of(cat) {
            lemma_walk_depth(c, Some(id), depth + 1);
            let cl = walk_levels(c, depth + 1);
            let cw = walk(c, Some(id), depth + 1);
            assert forall|i: int| 0 <= i < (pl + cl).len() implies depth <= #[trigger] (pl + cl)[i] <= 6 by {
                if i >= pl.len() {
                    assert((pl + cl)[i] == cl[i - pl.len()]);
                }
            }
            assert forall|i: int| 0 <= i < (pw + cw).len() implies (#[trigger] (pw + cw)[i]).id.len() > 0 by {
                if i >= pw.len() {
                    assert((pw + cw)[i] == cw[i - pw.len()]);
                }
            }
        }
    }
}

fn numbered(prefix: &str, middle: Option<&String>, n: usize) -> (r: String)
    ensures
        r@ == prefix@ + match middle {
            Some(m) => m@ + "-"@,
            None => Seq::empty(),
        } + decimal(n as nat),
{
    let mut v: Vec<char> = Vec::new();
    push_str(&mut v, prefix);
    match middle {
        Some(m) => {
            let mut mc = chars_of(m.as_str());
            v.append(&mut mc);
            push_str(&mut v, "-");
        },
        None => {},
    }
    push_decimal(&mut v, n);
    string_of(&v)
}

fn template_item(tpl: &Json, tidx: usize, cat_id: &String) -> (r: Option<TemplateItem>)
    requires
        tidx < usize::MAX,
    ensures
        match r {
            Some(t) => template_of(*tpl, tidx as nat, cat_id@) == Some(t@),
            None => template_of(*tpl, tidx as nat, cat_id@) is None,
        },
{
    let latex = match trimmed_field_of(tpl, "latex") {
        Some(l) => l,
        None => return None,
    };
    let name = match trimmed_field_of(tpl, "name") {
        Some(n) => n,
        None => numbered("模板 ", None, tidx + 1),
    };
    let id = match trimmed_field_of(tpl, "id") {
        Some(id) => id,
        None => {
            proof {
                assert("template-"@ + (cat_id@ + "-"@) + decimal((tidx + 1) as nat) == "template-"@
                    + cat_id@ + "-"@ + decimal((tidx + 1) as nat));
            }
            numbered("template-", Some(cat_id), tidx + 1)
        },
    };
    let note = trimmed_field_of(tpl, "note");
    let t = TemplateItem { id, name, latex, note };
    proof {
        assert(opt_view(t.note) == trimmed_field(*tpl, "note"@));
    }
    Some(t)
}

fn category_templates(cat: &Json, cat_id: &String) -> (r: Vec<TemplateItem>)
    ensures
        items_view(r@) == templates_of(*cat, cat_id@),
{
    let mut out: Vec<TemplateItem> = Vec::new();
    match cat.get("templates") {
        Some(Json::Array(tpls)) => {
            let mut i: usize = 0;
            while i < tpls.len()
                invariant
                    i <= tpls@.len(),
                    field(*cat, "templates"@) == Some(Json::Array(*tpls)),
                    items_view(out@) == templates_upto(tpls@, cat_id@, i as nat),
                decreases tpls@.len() - i,
            {
                match template_item(&tpls[i], i, cat_id) {
                    Some(t) => {
                        proof {
                            assert(items_view(out@.push(t)) == items_view(out@).push(t@));
                        }
                        out.push(t);
                    },
                    None => {},
                }
                i = i + 1;
            }
        },
        _ => {},
    }
    out
}

fn clone_opt(s: &Option<String>) -> (r: Option<String>)
    ensures
        opt_view(r) == opt_view(*s),
{
    match s {
        Some(t) => Some(t.clone()),
        None => None,
    }
}

/// Appends to `acc` the categories of the array `value` on level `depth` and
/// of their descendants down to level `MAX_DEPTH`, in pre-order.
fn walk_categories(value: &Json, parent_id: &Option<String>, depth: usize, acc: &mut Vec<TemplateCategory>)
    requires
        depth >= 1,
    ensures
        categories_view(final(acc)@) == categories_view(old(acc)@) + walk(
            *value,
            opt_view(*parent_id),
            depth as nat,
        ),
    decreases 7 - depth,
{
    if depth > MAX_DEPTH {
        proof {
            assert(categories_view(old(acc)@) + Seq::<TemplateCategoryView>::empty() == categories_view(old(acc)@));
        }
        return;
    }
    let cats = match value {
        Json::Array(cats) => cats,
        _ => {
            proof {
                assert(categories_view(old(acc)@) + Seq::<TemplateCategoryView>::empty() == categories_view(old(acc)@));
            }
            return;
        },
    };
    let ghost start = categories_view(acc@);
    let ghost parent = opt_view(*parent_id);
    let mut i: usize = 0;
    proof {
        assert(start + Seq::<TemplateCategoryView>::empty() == start);
    }
    while i < cats.len()
        invariant
            1 <= depth <= 6,
            i <= cats@.len(),
            *value == Json::Array(*cats),
            parent == opt_view(*parent_id),
            categories_view(acc@) == start + walk_list(cats@, parent, depth as nat, i as nat),
        decreases cats@.len() - i,
    {
        let cat = &cats[i];
        let name = match trimmed_field_of(cat, "name") {
            Some(n) => n,
            None => numbered("分类 ", None, i + 1),
        };
        let id = match trimmed_field_of(cat, "id") {
            Some(id) => id,
            None => {
                let mut v: Vec<char> = Vec::new();
                push_str(&mut v, "category-");
                push_decimal(&mut v, depth);
                push_str(&mut v, "-");
                push_decimal(&mut v, i + 1);
                string_of(&v)
            },
        };
        let templates = category_templates(cat, &id);
        let parent_here = match trimmed_field_of(cat, "parentId") {
            Some(p) => Some(p),
            None => clone_opt(parent_id),
        };
        let c = TemplateCategory { id: id.clone(), name, templates, parent_id: parent_here };
        let ghost before = categories_view(acc@);
        proof {
            assert(c@ == category_of(*cat, i as nat, depth as nat, parent));
            assert(categories_view(acc@.push(c)) == categories_view(acc@).push(c@));
        }
        acc.push(c);
        let child = match cat.get("categories") {
            Some(c) => Some(c),
            None => cat.get("children"),
        };
        let ghost mid = categories_view(acc@);
        match child {
            Some(child_value) => {
                let pid = Some(id);
                walk_categories(child_value, &pid, depth + 1, acc);
                proof {
                    assert(opt_view(pid) == Some(category_id(*cat, i as nat, depth as nat)));
                }
            },
            None => {},
        }
        proof {
            assert(cats@.take((i + 1) as int)[i as int] == cats@[i as int]);
            assert(categories_view(acc@) == start + walk_list(cats@, parent, depth as nat, (i + 1) as nat));
        }
        i = i + 1;
    }
}

/// Normalizes a template library: a bare array of categories, or an object
/// whose `categories` field holds them. Categories are flattened in pre-order
/// down to level `MAX_DEPTH`; the first one is selected.
pub fn normalize_templates(value: &Json) -> (r: TemplateLibrary)
    ensures
        categories_view(r.categories@) == library_categories(*value),
        r.categories@.len() == 0 ==> r.selected_category_id@ == Seq::<char>::empty(),
        r.categories@.len() > 0 ==> r.selected_category_id@ == r.categories@[0].id@,
        r.selected_category_id@.len() == 0 <==> r.categories@.len() == 0,
{
    let root = match value.get("categories") {
        Some(c) => c,
        None => value,
    };
    let mut categories: Vec<TemplateCategory> = Vec::new();
    walk_categories(root, &None, 1, &mut categories);
    proof {
        assert(categories_view(Seq::<TemplateCategory>::empty()) + library_categories(*value) == library_categories(*value));
    }
    proof {
        lemma_walk_depth(library_root(*value), None, 1);
        if categories@.len() > 0 {
            assert(categories_view(categories@)[0] == categories@[0]@);
        }
    }
    let selected_category_id = if categories.len() > 0 {
        categories[0].id.clone()
    } else {
        String::new()
    };
    TemplateLibrary { categories, selected_category_id }
}

} // verus!
