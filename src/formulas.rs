//! Normalization of a formula collection.

use vstd::prelude::*;
use crate::json::{Json, field, trimmed_field, trimmed_field_of};
use crate::text::{
    decimal, lemma_decimal_last, lemma_trimmed_fixed, lemma_trimmed_idempotent,
    push_decimal, push_str, string_of, trimmed,
};

verus! {

/// One formula of a normalized collection.
#[derive(Debug)]
pub struct FormulaEntry {
    pub id: String,
    pub index: u32,
    pub latex: String,
    pub note: Option<String>,
}

/// A formula entry as plain values.
pub struct FormulaEntryView {
    pub id: Seq<char>,
    pub index: u32,
    pub latex: Seq<char>,
    pub note: Option<Seq<char>>,
}

/// The view of an optional string.
pub open spec fn opt_view(s: Option<String>) -> Option<Seq<char>> {
    match s {
        Some(t) => Some(t@),
        None => None,
    }
}

impl View for FormulaEntry {
    type V = FormulaEntryView;

    open spec fn view(&self) -> FormulaEntryView {
        FormulaEntryView {
            id: self.id@,
            index: self.index,
            latex: self.latex@,
            note: opt_view(self.note),
        }
    }
}

/// Why a value is not a formula collection.
#[derive(Debug, PartialEq, Eq, Structural)]
pub enum NormalizeError {
    /// The text is not JSON.
    InvalidJson,
    /// The value is a template library.
    WrongKind,
    /// The value is neither an array nor a template library.
    WrongShape,
}

impl NormalizeError {
    /// The message shown to the user.
    pub fn message(&self) -> (r: String)
        ensures
            r@ == match self {
                NormalizeError::InvalidJson => "文件内容不是有效的 JSON 格式"@,
                NormalizeError::WrongKind => "这是模板库文件，请使用“绑定模板”功能导入"@,
                NormalizeError::WrongShape => "文件格式错误：公式集必须是 JSON 数组"@,
            },
    {
        match self {
            NormalizeError::InvalidJson => String::from_str("文件内容不是有效的 JSON 格式"),
            NormalizeError::WrongKind => String::from_str("这是模板库文件，请使用“绑定模板”功能导入"),
            NormalizeError::WrongShape => String::from_str("文件格式错误：公式集必须是 JSON 数组"),
        }
    }
}

/// The synthesized id of the element at position `idx`.
pub open spec fn formula_default_id(idx: nat) -> Seq<char> {
    "formula-"@ + decimal(idx + 1)
}

/// The element at position `idx` as a formula entry; nothing when its `latex`
/// is missing, not a string or blank.
pub open spec fn formula_of(item: Json, idx: nat) -> Option<FormulaEntryView> {
    match trimmed_field(item, "latex"@) {
        None => None,
        Some(latex) => Some(
            FormulaEntryView {
                id: match trimmed_field(item, "id"@) {
                    Some(id) => id,
                    None => formula_default_id(idx),
                },
                index: match field(item, "index"@) {
                    Some(Json::UInt(n)) => n as u32,
                    _ => (idx + 1) as u32,
                },
                latex,
                note: trimmed_field(item, "note"@),
            },
        ),
    }
}

/// The entries of the first `k` elements of `items`, in order.
pub open spec fn formulas_of(items: Seq<Json>, k: nat) -> Seq<FormulaEntryView>
    decreases k,
{
    if k == 0 {
        Seq::empty()
    } else {
        let prev = formulas_of(items, (k - 1) as nat);
        match formula_of(items[k - 1], (k - 1) as nat) {
            Some(e) => prev.push(e),
            None => prev,
        }
    }
}

/// The views of a sequence of entries.
pub open spec fn entries_view(s: Seq<FormulaEntry>) -> Seq<FormulaEntryView> {
    s.map_values(|e: FormulaEntry| e@)
}

/// What normalizing `v` gives.
pub open spec fn normalized_formulas(v: Json) -> Result<Seq<FormulaEntryView>, NormalizeError> {
    match v {
        Json::Array(items) => Ok(formulas_of(items@, items@.len())),
        _ => if field(v, "categories"@) is Some {
            Err(NormalizeError::WrongKind)
        } else {
            Err(NormalizeError::WrongShape)
        },
    }
}

/// The number of the first `k` elements of `items` that have a non-blank `latex`.
pub open spec fn latex_count(items: Seq<Json>, k: nat) -> nat
    decreases k,
{
    if k == 0 {
        0
    } else {
        latex_count(items, (k - 1) as nat) + if trimmed_field(items[k - 1], "latex"@) is Some {
            1nat
        } else {
            0nat
        }
    }
}

/// Every entry of a normalized collection has the non-blank, trimmed `latex`
/// of an element of the source, and comes from an element that has one.
pub proof fn lemma_entries_latex(items: Seq<Json>, k: nat)
    requires
        k <= items.len(),
    ensures
        forall|j: int|
            0 <= j < formulas_of(items, k).len() ==> {
                &&& #[trigger] formulas_of(items, k)[j].latex.len() > 0
                &&& exists|i: int|
                    0 <= i < k && #[trigger] trimmed_field(items[i], "latex"@) == Some(
                        formulas_of(items, k)[j].latex,
                    )
            },
    decreases k,
{
    if k > 0 {
        lemma_entries_latex(items, (k - 1) as nat);
        let prev = formulas_of(items, (k - 1) as nat);
        let cur = formulas_of(items, k);
        assert forall|j: int| 0 <= j < cur.len() implies {
            &&& #[trigger] cur[j].latex.len() > 0
            &&& exists|i: int| 0 <= i < k && #[trigger] trimmed_field(items[i], "latex"@) == Some(cur[j].latex)
        } by {
            if j < prev.len() {
                assert(cur[j] == prev[j]);
                assert(prev[j].latex.len() > 0);
            } else {
                let i = k - 1;
                assert(trimmed_field(items[i], "latex"@) == Some(cur[j].latex));
            }
        }
    }
}

/// Elements without a non-blank `latex` are dropped and all others kept: the
/// collection has as many entries as the source has elements with one.
pub proof fn lemma_entries_count(items: Seq<Json>, k: nat)
    requires
        k <= items.len(),
    ensures
        formulas_of(items, k).len() == latex_count(items, k),
    decreases k,
{
    if k > 0 {
        lemma_entries_count(items, (k - 1) as nat);
    }
}

/// A value that is no array but has `categories` is a template library, and
/// is refused as the wrong kind, never as the wrong shape.
pub proof fn lemma_library_is_wrong_kind(v: Json)
    requires
        !(v is Array),
        field(v, "categories"@) is Some,
    ensures
        normalized_formulas(v) == Err::<Seq<FormulaEntryView>, NormalizeError>(
            NormalizeError::WrongKind,
        ),
{
}

/// An entry as normalization leaves it: text fields trimmed and not blank.
pub open spec fn is_canonical(e: FormulaEntryView) -> bool {
    &&& e.id.len() > 0 && trimmed(e.id) == e.id
    &&& e.latex.len() > 0 && trimmed(e.latex) == e.latex
    &&& match e.note {
        Some(n) => n.len() > 0 && trimmed(n) == n,
        None => true,
    }
}

/// `j` is an object that holds the fields of `e`: `id`, `index`, `latex`, and
/// `note` when `e` has one (else no `note`, or `null`).
pub open spec fn encodes(j: Json, e: FormulaEntryView) -> bool {
    &&& (field(j, "id"@) matches Some(Json::Str(s)) && s@ == e.id)
    &&& field(j, "index"@) == Some(Json::UInt(e.index as u64))
    &&& (field(j, "latex"@) matches Some(Json::Str(s)) && s@ == e.latex)
    &&& match e.note {
        Some(n) => (field(j, "note"@) matches Some(Json::Str(s)) && s@ == n),
        None => field(j, "note"@) is None || field(j, "note"@) == Some(Json::Null),
    }
}

proof fn lemma_trimmed_twice_field(v: Json, key: Seq<char>)
    ensures
        trimmed_field(v, key) matches Some(t) ==> t.len() > 0 && trimmed(t) == t,
{
    if let Some(Json::Str(s)) = field(v, key) {
        lemma_trimmed_idempotent(s@);
    }
}

/// Every entry of a normalized collection is canonical.
pub proof fn lemma_entries_canonical(items: Seq<Json>, k: nat)
    requires
        k <= items.len(),
    ensures
        forall|j: int| 0 <= j < formulas_of(items, k).len() ==> is_canonical(
            #[trigger] formulas_of(items, k)[j],
        ),
    decreases k,
{
    if k > 0 {
        lemma_entries_canonical(items, (k - 1) as nat);
        let item = items[k - 1];
        lemma_trimmed_twice_field(item, "latex"@);
        lemma_trimmed_twice_field(item, "id"@);
        lemma_trimmed_twice_field(item, "note"@);
        let d = formula_default_id((k - 1) as nat);
        lemma_decimal_last(k as nat);
        reveal_strlit("formula-");
        assert(d[0] == 'f');
        assert(d.last() == decimal(k as nat).last());
        lemma_trimmed_fixed(d);
        let prev = formulas_of(items, (k - 1) as nat);
        let cur = formulas_of(items, k);
        if let Some(e) = formula_of(item, (k - 1) as nat) {
            assert(is_canonical(e));
        }
        assert forall|j: int| 0 <= j < cur.len() implies is_canonical(#[trigger] cur[j]) by {
            if j < prev.len() {
                assert(cur[j] == prev[j]);
            }
        }
    }
}

proof fn lemma_encoded_entry(j: Json, e: FormulaEntryView, idx: nat)
    requires
        encodes(j, e),
        is_canonical(e),
    ensures
        formula_of(j, idx) == Some(e),
{
    assert(trimmed_field(j, "latex"@) == Some(e.latex));
    assert(trimmed_field(j, "id"@) == Some(e.id));
    assert(trimmed_field(j, "note"@) == e.note);
}

/// Normalizing again what normalization gave changes nothing: an array of
/// objects that hold the fields of the entries of a normalized collection
/// normalizes to those same entries.
pub proof fn lemma_normalize_again(src: Seq<Json>, again: Seq<Json>)
    requires
        again.len() == formulas_of(src, src.len()).len(),
        forall|i: int| 0 <= i < again.len() ==> encodes(#[trigger] again[i], formulas_of(src, src.len())[i]),
    ensures
        formulas_of(again, again.len()) == formulas_of(src, src.len()),
{
    let out = formulas_of(src, src.len());
    lemma_entries_canonical(src, src.len());
    lemma_prefix_again(again, out, again.len());
    assert(out.take(again.len() as int) == out);
}

proof fn lemma_prefix_again(again: Seq<Json>, out: Seq<FormulaEntryView>, k: nat)
    requires
        k <= again.len() == out.len(),
        forall|i: int| 0 <= i < again.len() ==> encodes(#[trigger] again[i], out[i]),
        forall|i: int| 0 <= i < out.len() ==> is_canonical(#[trigger] out[i]),
    ensures
        formulas_of(again, k) == out.take(k as int),
    decreases k,
{
    if k > 0 {
        lemma_prefix_again(again, out, (k - 1) as nat);
        assert(encodes(again[k - 1], out[k - 1]));
        assert(is_canonical(out[k - 1]));
        lemma_encoded_entry(again[k - 1], out[k - 1], (k - 1) as nat);
        assert(out.take(k as int) == out.take(k - 1).push(out[k - 1]));
    }
}

fn formula_entry(item: &Json, idx: usize) -> (r: Option<FormulaEntry>)
    requires
        idx < usize::MAX,
    ensures
        match r {
            Some(e) => formula_of(*item, idx as nat) == Some(e@),
            None => formula_of(*item, idx as nat) is None,
        },
{
    let latex = match trimmed_field_of(item, "latex") {
        Some(l) => l,
        None => return None,
    };
    let id = match trimmed_field_of(item, "id") {
        Some(id) => id,
        None => {
            let mut v: Vec<char> = Vec::new();
            push_str(&mut v, "formula-");
            push_decimal(&mut v, idx + 1);
            string_of(&v)
        },
    };
    let index: u32 = match item.get("index") {
        Some(Json::UInt(n)) => *n as u32,
        _ => (idx + 1) as u32,
    };
    let note = trimmed_field_of(item, "note");
    let e = FormulaEntry { id, index, latex, note };
    proof {
        assert(opt_view(e.note) == trimmed_field(*item, "note"@));
    }
    Some(e)
}

/// Normalizes a formula collection: an array whose elements each become an
/// entry, in order, unless their `latex` is missing or blank. A template
/// library (an object with `categories`) is refused as the wrong kind, any
/// other value as the wrong shape.
pub fn normalize_formulas(value: &Json) -> (r: Result<Vec<FormulaEntry>, NormalizeError>)
    ensures
        match r {
            Ok(entries) => normalized_formulas(*value) == Ok::<
                Seq<FormulaEntryView>,
                NormalizeError,
            >(entries_view(entries@)),
            Err(e) => normalized_formulas(*value) == Err::<Seq<FormulaEntryView>, NormalizeError>(
                e,
            ),
        },
{
    let items = match value {
        Json::Array(items) => items,
        _ => {
            if value.get("categories").is_some() {
                return Err(NormalizeError::WrongKind);
            }
            return Err(NormalizeError::WrongShape);
        },
    };
    let mut out: Vec<FormulaEntry> = Vec::new();
    let mut i: usize = 0;
    while i < items.len()
        invariant
            i <= items@.len(),
            *value == Json::Array(*items),
            entries_view(out@) == formulas_of(items@, i as nat),
        decreases items@.len() - i,
    {
        let e = formula_entry(&items[i], i);
        match e {
            Some(e) => {
                proof {
                    assert(entries_view(out@.push(e)) == entries_view(out@).push(e@));
                }
                out.push(e);
            },
            None => {},
        }
        i = i + 1;
    }
    Ok(out)
}

} // verus!
