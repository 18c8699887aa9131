//! The closed value representation and its algebra: rendering, length,
//! truthiness, equality, ordering and indexed access.

use vstd::prelude::*;
use vstd::string::StrSliceExecFns;
use vstd::string::StringExecFns;

verus! {

/// Closed enumeration classifying document-node shapes and scalar or empty
/// leaves. `Text` marks scalar values rendered as text; `Empty` marks
/// non-representable or genuinely empty values.
#[derive(Clone, Copy, Debug, PartialEq, Eq, Structural)]
pub enum MarkdownType {
    Blockquote,
    Break,
    Definition,
    Delete,
    Heading,
    Emphasis,
    Footnote,
    FootnoteRef,
    Html,
    Yaml,
    Toml,
    Image,
    ImageRef,
    CodeInline,
    MathInline,
    Link,
    LinkRef,
    Math,
    List,
    TableHeader,
    TableRow,
    TableCell,
    Code,
    Strong,
    HorizontalRule,
    MdxFlowExpression,
    MdxJsxFlowElement,
    MdxJsxTextElement,
    MdxTextExpression,
    MdxJsEsm,
    Text,
    Empty,
}

/// A converted value: an order-preserving array, a mapping from strings to
/// values in insertion order, or a leaf carrying rendered text and a tag.
#[derive(Debug)]
pub enum MQValue {
    Array { value: Vec<MQValue> },
    Dict { value: Vec<(String, MQValue)> },
    Markdown { value: String, markdown_type: MarkdownType },
}

/// Mathematical model of an `MQValue` tree.
pub enum ValueView {
    Array(Seq<ValueView>),
    Mapping(Seq<(Seq<char>, ValueView)>),
    Leaf(Seq<char>, MarkdownType),
}

/// The model of a value: arrays and mappings are modelled element by element,
/// a leaf by the view of its text and its tag.
pub open spec fn value_view(v: MQValue) -> ValueView
    decreases v, 0nat,
{
    match v {
        MQValue::Array { value } => ValueView::Array(elem_views(value@, 0)),
        MQValue::Dict { value } => ValueView::Mapping(pair_views(value@, 0)),
        MQValue::Markdown { value, markdown_type } => ValueView::Leaf(value@, markdown_type),
    }
}

/// Models of the elements of an array, from index `i` on.
pub open spec fn elem_views(elems: Seq<MQValue>, i: int) -> Seq<ValueView>
    decreases elems, elems.len() - i,
{
    if 0 <= i < elems.len() {
        seq![value_view(elems[i])] + elem_views(elems, i + 1)
    } else {
        Seq::empty()
    }
}

/// Models of the pairs of a mapping, from index `i` on.
pub open spec fn pair_views(pairs: Seq<(String, MQValue)>, i: int) -> Seq<(Seq<char>, ValueView)>
    decreases pairs, pairs.len() - i,
{
    if 0 <= i < pairs.len() {
        seq![(pairs[i].0@, value_view(pairs[i].1))] + pair_views(pairs, i + 1)
    } else {
        Seq::empty()
    }
}

pub proof fn lemma_elem_views(elems: Seq<MQValue>, i: int)
    requires
        0 <= i <= elems.len(),
    ensures
        elem_views(elems, i).len() == elems.len() - i,
        forall|j: int|
            i <= j < elems.len() ==> elem_views(elems, i)[j - i] == value_view(elems[j]),
    decreases elems.len() - i,
{
    if i < elems.len() {
        lemma_elem_views(elems, i + 1);
    }
}

pub proof fn lemma_pair_views(pairs: Seq<(String, MQValue)>, i: int)
    requires
        0 <= i <= pairs.len(),
    ensures
        pair_views(pairs, i).len() == pairs.len() - i,
        forall|j: int|
            i <= j < pairs.len() ==> pair_views(pairs, i)[j - i] == (
            pairs[j].0@,
            value_view(pairs[j].1),
            ),
    decreases pairs.len() - i,
{
    if i < pairs.len() {
        lemma_pair_views(pairs, i + 1);
    }
}

pub proof fn lemma_elem_views_full(elems: Seq<MQValue>)
    ensures
        elem_views(elems, 0).len() == elems.len(),
        forall|j: int| 0 <= j < elems.len() ==> elem_views(elems, 0)[j] == value_view(elems[j]),
{
    lemma_elem_views(elems, 0);
    assert forall|j: int| 0 <= j < elems.len() implies elem_views(elems, 0)[j] == value_view(
        elems[j],
    ) by {
        assert(elem_views(elems, 0)[j - 0] == value_view(elems[j]));
    }
}

pub proof fn lemma_pair_views_full(pairs: Seq<(String, MQValue)>)
    ensures
        pair_views(pairs, 0).len() == pairs.len(),
        forall|j: int|
            0 <= j < pairs.len() ==> pair_views(pairs, 0)[j] == (
            pairs[j].0@,
            value_view(pairs[j].1),
            ),
{
    lemma_pair_views(pairs, 0);
    assert forall|j: int| 0 <= j < pairs.len() implies pair_views(pairs, 0)[j] == (
        pairs[j].0@,
        value_view(pairs[j].1),
    ) by {
        assert(pair_views(pairs, 0)[j - 0] == (pairs[j].0@, value_view(pairs[j].1)));
    }
}

impl View for MQValue {
    type V = ValueView;

    open spec fn view(&self) -> ValueView {
        value_view(*self)
    }
}

/// The length of a value: element count of an array, pair count of a mapping,
/// character count of a leaf's text.
pub open spec fn len_of(v: ValueView) -> nat {
    match v {
        ValueView::Array(elems) => elems.len(),
        ValueView::Mapping(pairs) => pairs.len(),
        ValueView::Leaf(text, _) => text.len(),
    }
}

/// A value is truthy exactly when its length is not zero.
pub open spec fn truthy(v: ValueView) -> bool {
    len_of(v) != 0
}

/// Structural equality. Arrays are equal when they have the same length and
/// are elementwise equal; leaves when text and tag both match. A mapping is
/// never equal to anything, itself included; cross-variant comparisons are
/// always false.
pub open spec fn eq_view(a: ValueView, b: ValueView) -> bool
    decreases a,
{
    match (a, b) {
        (ValueView::Array(x), ValueView::Array(y)) => x.len() == y.len() && (forall|i: int|
            0 <= i < x.len() ==> eq_view(#[trigger] x[i], y[i])),
        (ValueView::Leaf(t1, k1), ValueView::Leaf(t2, k2)) => t1 == t2 && k1 == k2,
        _ => false,
    }
}

/// Lexicographic order on text, from character `i` on: code points decide at
/// the first differing position; a strict prefix is less than the longer text.
pub open spec fn text_lt_from(x: Seq<char>, y: Seq<char>, i: int) -> bool
    decreases y.len() - i,
{
    if i < 0 || i >= y.len() {
        false
    } else if i >= x.len() {
        true
    } else if x[i] != y[i] {
        (x[i] as u32) < (y[i] as u32)
    } else {
        text_lt_from(x, y, i + 1)
    }
}

/// Lexicographic order on text.
pub open spec fn text_lt(x: Seq<char>, y: Seq<char>) -> bool {
    text_lt_from(x, y, 0)
}

/// Strict "less than". Arrays: a shorter array is less whatever its contents;
/// at equal lengths the first elementwise-unequal pair decides. Leaves:
/// lexicographic on the text, the tag is ignored. Any other pairing is
/// incomparable and yields false.
pub open spec fn lt_view(a: ValueView, b: ValueView) -> bool
    decreases a, 0nat,
{
    match (a, b) {
        (ValueView::Array(x), ValueView::Array(y)) => if x.len() != y.len() {
            x.len() < y.len()
        } else {
            lt_elems(x, y, 0)
        },
        (ValueView::Leaf(t1, _), ValueView::Leaf(t2, _)) => text_lt(t1, t2),
        _ => false,
    }
}

/// The first pair from index `i` on that is not equal decides via `lt_view`;
/// all pairs equal yields false.
pub open spec fn lt_elems(x: Seq<ValueView>, y: Seq<ValueView>, i: int) -> bool
    decreases x, x.len() - i,
{
    if !(0 <= i < x.len() && i < y.len()) {
        false
    } else if !eq_view(x[i], y[i]) {
        lt_view(x[i], y[i])
    } else {
        lt_elems(x, y, i + 1)
    }
}

/// Strict "greater than", the mirror of `lt_view`: longer arrays win on a
/// length mismatch, the first unequal pair decides at equal lengths, leaves
/// compare lexicographically, and any other pairing yields false.
pub open spec fn gt_view(a: ValueView, b: ValueView) -> bool
    decreases a, 0nat,
{
    match (a, b) {
        (ValueView::Array(x), ValueView::Array(y)) => if x.len() != y.len() {
            x.len() > y.len()
        } else {
            gt_elems(x, y, 0)
        },
        (ValueView::Leaf(t1, _), ValueView::Leaf(t2, _)) => text_lt(t2, t1),
        _ => false,
    }
}

/// The first pair from index `i` on that is not equal decides via `gt_view`;
/// all pairs equal yields false.
pub open spec fn gt_elems(x: Seq<ValueView>, y: Seq<ValueView>, i: int) -> bool
    decreases x, x.len() - i,
{
    if !(0 <= i < x.len() && i < y.len()) {
        false
    } else if !eq_view(x[i], y[i]) {
        gt_view(x[i], y[i])
    } else {
        gt_elems(x, y, i + 1)
    }
}

/// Lexicographic comparison of two texts, from character `i` on.
fn text_less_than_from(a: &str, b: &str, i: usize) -> (r: bool)
    ensures
        r == text_lt_from(a@, b@, i as int),
    decreases b@.len() - i,
{
    if i >= b.unicode_len() {
        false
    } else if i >= a.unicode_len() {
        true
    } else {
        let ca = a.get_char(i);
        let cb = b.get_char(i);
        if ca != cb {
            (ca as u32) < (cb as u32)
        } else {
            text_less_than_from(a, b, i + 1)
        }
    }
}

/// Whether the keys of a mapping's pair sequence are pairwise distinct.
pub open spec fn keys_unique(pairs: Seq<(Seq<char>, ValueView)>) -> bool {
    forall|i: int, j: int|
        0 <= i < j < pairs.len() ==> #[trigger] pairs[i].0 != #[trigger] pairs[j].0
}

/// Well-formedness of a value: every mapping anywhere in it has pairwise
/// distinct keys. The converter preserves this (see the conversion laws);
/// rendering, length and the comparison algebra do not depend on it.
pub open spec fn wf_view(v: ValueView) -> bool
    decreases v,
{
    match v {
        ValueView::Array(elems) => forall|i: int|
            0 <= i < elems.len() ==> wf_view(#[trigger] elems[i]),
        ValueView::Mapping(pairs) => keys_unique(pairs) && (forall|i: int|
            0 <= i < pairs.len() ==> wf_view(#[trigger] pairs[i].1)),
        ValueView::Leaf(_, _) => true,
    }
}

/// Whether no mapping occurs anywhere in a value.
pub open spec fn mapping_free(v: ValueView) -> bool
    decreases v,
{
    match v {
        ValueView::Array(elems) => forall|i: int|
            0 <= i < elems.len() ==> mapping_free(#[trigger] elems[i]),
        ValueView::Mapping(_) => false,
        ValueView::Leaf(_, _) => true,
    }
}

/// Equality is reflexive on every value that holds no mapping. (A mapping is
/// never equal to anything, itself included, so values holding one are left
/// out.)
pub proof fn lemma_eq_reflexive(v: ValueView)
    requires
        mapping_free(v),
    ensures
        eq_view(v, v),
    decreases v,
{
    match v {
        ValueView::Array(elems) => {
            assert forall|i: int| 0 <= i < elems.len() implies eq_view(
                #[trigger] elems[i],
                elems[i],
            ) by {
                lemma_eq_reflexive(elems[i]);
            }
        },
        _ => {},
    }
}

/// Equality is symmetric.
pub proof fn lemma_eq_symmetric(a: ValueView, b: ValueView)
    ensures
        eq_view(a, b) == eq_view(b, a),
    decreases a,
{
    match (a, b) {
        (ValueView::Array(x), ValueView::Array(y)) => {
            if x.len() == y.len() {
                assert forall|i: int| 0 <= i < x.len() implies eq_view(#[trigger] x[i], y[i])
                    == eq_view(y[i], x[i]) by {
                    lemma_eq_symmetric(x[i], y[i]);
                }
                assert forall|i: int| 0 <= i < y.len() implies eq_view(#[trigger] y[i], x[i])
                    == eq_view(x[i], y[i]) by {
                    lemma_eq_symmetric(x[i], y[i]);
                }
            }
        },
        _ => {},
    }
}

/// Equality is always false across differing variants, and false whenever a
/// mapping stands on either side.
pub proof fn lemma_eq_cross_variant(a: ValueView, b: ValueView)
    requires
        !(a is Array && b is Array),
        !(a is Leaf && b is Leaf),
    ensures
        !eq_view(a, b),
{
}

/// "Greater than" is the mirror of "less than": a value is greater than
/// another exactly when the other is less than it.
pub proof fn lemma_gt_is_lt_flipped(a: ValueView, b: ValueView)
    ensures
        gt_view(a, b) == lt_view(b, a),
    decreases a, 1nat,
{
    match (a, b) {
        (ValueView::Array(x), ValueView::Array(y)) => {
            if x.len() == y.len() {
                lemma_gt_elems_is_lt_elems_flipped(x, y, 0);
            }
        },
        _ => {},
    }
}

/// The elementwise rule behind `lemma_gt_is_lt_flipped`, from index `i` on.
pub proof fn lemma_gt_elems_is_lt_elems_flipped(x: Seq<ValueView>, y: Seq<ValueView>, i: int)
    requires
        x.len() == y.len(),
    ensures
        gt_elems(x, y, i) == lt_elems(y, x, i),
    decreases x, x.len() - i, 0nat,
{
    if 0 <= i < x.len() {
        lemma_eq_symmetric(x[i], y[i]);
        if !eq_view(x[i], y[i]) {
            lemma_gt_is_lt_flipped(x[i], y[i]);
        } else {
            lemma_gt_elems_is_lt_elems_flipped(x, y, i + 1);
        }
    }
}

/// Any pairing other than array with array or leaf with leaf is
/// order-incomparable: both orders answer false.
pub proof fn lemma_order_incomparable(a: ValueView, b: ValueView)
    requires
        !(a is Array && b is Array),
        !(a is Leaf && b is Leaf),
    ensures
        !lt_view(a, b),
        !gt_view(a, b),
{
}

/// The rendered text of a value: an array renders its elements joined by
/// newlines in order; a mapping renders `key: value` pairs joined by newlines
/// in its own pair order; a leaf renders its stored text verbatim.
pub open spec fn render(v: ValueView) -> Seq<char>
    decreases v, 0nat,
{
    match v {
        ValueView::Array(elems) => join_elems(elems, 0),
        ValueView::Mapping(pairs) => join_pairs(pairs, 0),
        ValueView::Leaf(text, _) => text,
    }
}

/// The renders of the elements from index `i` on, joined by newlines.
pub open spec fn join_elems(elems: Seq<ValueView>, i: int) -> Seq<char>
    decreases elems, elems.len() - i,
{
    if 0 <= i < elems.len() {
        render(elems[i]) + if i + 1 < elems.len() {
            "\n"@ + join_elems(elems, i + 1)
        } else {
            Seq::empty()
        }
    } else {
        Seq::empty()
    }
}

/// The `key: value` renders of the pairs from index `i` on, joined by newlines.
pub open spec fn join_pairs(pairs: Seq<(Seq<char>, ValueView)>, i: int) -> Seq<char>
    decreases pairs, pairs.len() - i,
{
    if 0 <= i < pairs.len() {
        pairs[i].0 + ": "@ + render(pairs[i].1) + if i + 1 < pairs.len() {
            "\n"@ + join_pairs(pairs, i + 1)
        } else {
            Seq::empty()
        }
    } else {
        Seq::empty()
    }
}

/// The elements a value exposes to indexing: an array its own elements, any
/// other value itself as a one-element sequence.
pub open spec fn elems_of(v: ValueView) -> Seq<ValueView> {
    match v {
        ValueView::Array(elems) => elems,
        _ => seq![v],
    }
}

/// An out-of-range index access, carrying the requested index and the length
/// the bounds check used.
#[derive(Clone, Copy, Debug, PartialEq, Eq, Structural)]
pub struct BoundsError {
    pub index: usize,
    pub length: usize,
}

/// Renders the elements of `v` from index `i` on, joined by newlines.
fn join_elems_exec(v: &Vec<MQValue>, i: usize) -> (r: String)
    ensures
        r@ == join_elems(elem_views(v@, 0), i as int),
    decreases *v, v@.len() - i, 0nat,
{
    proof {
        lemma_elem_views_full(v@);
    }
    if i < v.len() {
        let mut s = v[i].text();
        if i + 1 < v.len() {
            s.append("\n");
            let rest = join_elems_exec(v, i + 1);
            s.append(rest.as_str());
        }
        proof {
            assert(s@ =~= join_elems(elem_views(v@, 0), i as int));
        }
        s
    } else {
        String::new()
    }
}

/// Renders the pairs of `v` from index `i` on as `key: value`, joined by
/// newlines.
fn join_pairs_exec(v: &Vec<(String, MQValue)>, i: usize) -> (r: String)
    ensures
        r@ == join_pairs(pair_views(v@, 0), i as int),
    decreases *v, v@.len() - i, 0nat,
{
    proof {
        lemma_pair_views_full(v@);
    }
    if i < v.len() {
        let p = &v[i];
        let mut s = p.0.clone();
        s.append(": ");
        let t = p.1.text();
        s.append(t.as_str());
        if i + 1 < v.len() {
            s.append("\n");
            let rest = join_pairs_exec(v, i + 1);
            s.append(rest.as_str());
        }
        proof {
            assert(s@ =~= join_pairs(pair_views(v@, 0), i as int));
        }
        s
    } else {
        String::new()
    }
}

/// Deep copies of the first `n` elements of `v`.
fn duplicate_elems(v: &Vec<MQValue>, n: usize) -> (r: Vec<MQValue>)
    requires
        n <= v@.len(),
    ensures
        r@.len() == n,
        forall|j: int| 0 <= j < n ==> value_view(r@[j]) == value_view(v@[j]),
    decreases *v, n, 0nat,
{
    if n == 0 {
        Vec::new()
    } else {
        let mut out = duplicate_elems(v, n - 1);
        out.push(v[n - 1].duplicate());
        out
    }
}

/// Deep copies of the first `n` pairs of `v`.
fn duplicate_pairs(v: &Vec<(String, MQValue)>, n: usize) -> (r: Vec<(String, MQValue)>)
    requires
        n <= v@.len(),
    ensures
        r@.len() == n,
        forall|j: int|
            0 <= j < n ==> r@[j].0@ == v@[j].0@ && value_view(r@[j].1) == value_view(v@[j].1),
    decreases *v, n, 0nat,
{
    if n == 0 {
        Vec::new()
    } else {
        let mut out = duplicate_pairs(v, n - 1);
        let p = &v[n - 1];
        out.push((p.0.clone(), p.1.duplicate()));
        out
    }
}

/// The name of a tag, as its debug form spells it.
pub open spec fn kind_name(k: MarkdownType) -> Seq<char> {
    match k {
        MarkdownType::Blockquote => "Blockquote"@,
        MarkdownType::Break => "Break"@,
        MarkdownType::Definition => "Definition"@,
        MarkdownType::Delete => "Delete"@,
        MarkdownType::Heading => "Heading"@,
        MarkdownType::Emphasis => "Emphasis"@,
        MarkdownType::Footnote => "Footnote"@,
        MarkdownType::FootnoteRef => "FootnoteRef"@,
        MarkdownType::Html => "Html"@,
        MarkdownType::Yaml => "Yaml"@,
        MarkdownType::Toml => "Toml"@,
        MarkdownType::Image => "Image"@,
        MarkdownType::ImageRef => "ImageRef"@,
        MarkdownType::CodeInline => "CodeInline"@,
        MarkdownType::MathInline => "MathInline"@,
        MarkdownType::Link => "Link"@,
        MarkdownType::LinkRef => "LinkRef"@,
        MarkdownType::Math => "Math"@,
        MarkdownType::List => "List"@,
        MarkdownType::TableHeader => "TableHeader"@,
        MarkdownType::TableRow => "TableRow"@,
        MarkdownType::TableCell => "TableCell"@,
        MarkdownType::Code => "Code"@,
        MarkdownType::Strong => "Strong"@,
        MarkdownType::HorizontalRule => "HorizontalRule"@,
        MarkdownType::MdxFlowExpression => "MdxFlowExpression"@,
        MarkdownType::MdxJsxFlowElement => "MdxJsxFlowElement"@,
        MarkdownType::MdxJsxTextElement => "MdxJsxTextElement"@,
        MarkdownType::MdxTextExpression => "MdxTextExpression"@,
        MarkdownType::MdxJsEsm => "MdxJsEsm"@,
        MarkdownType::Text => "Text"@,
        MarkdownType::Empty => "Empty"@,
    }
}

/// The debug form of a value: arrays spell their elements' debug forms inside
/// `MQValue::ARRAY([..])`, mappings their quoted keys and the values' debug
/// forms inside `MQValue::MAP(..)`, and a leaf its quoted text and tag name.
pub open spec fn repr_view(v: ValueView) -> Seq<char>
    decreases v, 0nat,
{
    match v {
        ValueView::Array(elems) => "MQValue::ARRAY(["@ + repr_elems(elems, 0) + "])"@,
        ValueView::Mapping(pairs) => "MQValue::MAP("@ + repr_pairs(pairs, 0) + ")"@,
        ValueView::Leaf(text, kind) => "MQValue::Markdown(\""@ + text + "\", "@ + kind_name(kind)
            + ")"@,
    }
}

/// The debug forms of the elements from index `i` on, comma-separated.
pub open spec fn repr_elems(elems: Seq<ValueView>, i: int) -> Seq<char>
    decreases elems, elems.len() - i,
{
    if 0 <= i < elems.len() {
        repr_view(elems[i]) + if i + 1 < elems.len() {
            ", "@ + repr_elems(elems, i + 1)
        } else {
            Seq::empty()
        }
    } else {
        Seq::empty()
    }
}

/// The quoted keys and debug forms of the pairs from index `i` on,
/// comma-separated.
pub open spec fn repr_pairs(pairs: Seq<(Seq<char>, ValueView)>, i: int) -> Seq<char>
    decreases pairs, pairs.len() - i,
{
    if 0 <= i < pairs.len() {
        "\""@ + pairs[i].0 + "\": "@ + repr_view(pairs[i].1) + if i + 1 < pairs.len() {
            ", "@ + repr_pairs(pairs, i + 1)
        } else {
            Seq::empty()
        }
    } else {
        Seq::empty()
    }
}

/// The name of a tag, as its debug form spells it.
pub fn kind_name_exec(k: MarkdownType) -> (r: String)
    ensures
        r@ == kind_name(k),
{
    match k {
        MarkdownType::Blockquote => String::from_str("Blockquote"),
        MarkdownType::Break => String::from_str("Break"),
        MarkdownType::Definition => String::from_str("Definition"),
        MarkdownType::Delete => String::from_str("Delete"),
        MarkdownType::Heading => String::from_str("Heading"),
        MarkdownType::Emphasis => String::from_str("Emphasis"),
        MarkdownType::Footnote => String::from_str("Footnote"),
        MarkdownType::FootnoteRef => String::from_str("FootnoteRef"),
        MarkdownType::Html => String::from_str("Html"),
        MarkdownType::Yaml => String::from_str("Yaml"),
        MarkdownType::Toml => String::from_str("Toml"),
        MarkdownType::Image => String::from_str("Image"),
        MarkdownType::ImageRef => String::from_str("ImageRef"),
        MarkdownType::CodeInline => String::from_str("CodeInline"),
        MarkdownType::MathInline => String::from_str("MathInline"),
        MarkdownType::Link => String::from_str("Link"),
        MarkdownType::LinkRef => String::from_str("LinkRef"),
        MarkdownType::Math => String::from_str("Math"),
        MarkdownType::List => String::from_str("List"),
        MarkdownType::TableHeader => String::from_str("TableHeader"),
        MarkdownType::TableRow => String::from_str("TableRow"),
        MarkdownType::TableCell => String::from_str("TableCell"),
        MarkdownType::Code => String::from_str("Code"),
        MarkdownType::Strong => String::from_str("Strong"),
        MarkdownType::HorizontalRule => String::from_str("HorizontalRule"),
        MarkdownType::MdxFlowExpression => String::from_str("MdxFlowExpression"),
        MarkdownType::MdxJsxFlowElement => String::from_str("MdxJsxFlowElement"),
        MarkdownType::MdxJsxTextElement => String::from_str("MdxJsxTextElement"),
        MarkdownType::MdxTextExpression => String::from_str("MdxTextExpression"),
        MarkdownType::MdxJsEsm => String::from_str("MdxJsEsm"),
        MarkdownType::Text => String::from_str("Text"),
        MarkdownType::Empty => String::from_str("Empty"),
    }
}

/// Debug forms of the elements from index `i` on, comma-separated.
fn repr_elems_exec(v: &Vec<MQValue>, i: usize) -> (r: String)
    ensures
        r@ == repr_elems(elem_views(v@, 0), i as int),
    decreases *v, v@.len() - i, 0nat,
{
    proof {
        lemma_elem_views_full(v@);
    }
    if i < v.len() {
        let mut s = v[i].repr();
        if i + 1 < v.len() {
            s.append(", ");
            let rest = repr_elems_exec(v, i + 1);
            s.append(rest.as_str());
        }
        proof {
            assert(s@ =~= repr_elems(elem_views(v@, 0), i as int));
        }
        s
    } else {
        String::new()
    }
}

/// Quoted keys and debug forms of the pairs from index `i` on,
/// comma-separated.
fn repr_pairs_exec(v: &Vec<(String, MQValue)>, i: usize) -> (r: String)
    ensures
        r@ == repr_pairs(pair_views(v@, 0), i as int),
    decreases *v, v@.len() - i, 0nat,
{
    proof {
        lemma_pair_views_full(v@);
    }
    if i < v.len() {
        let p = &v[i];
        let mut s = String::from_str("\"");
        s.append(p.0.as_str());
        s.append("\": ");
        let t = p.1.repr();
        s.append(t.as_str());
        if i + 1 < v.len() {
            s.append(", ");
            let rest = repr_pairs_exec(v, i + 1);
            s.append(rest.as_str());
        }
        proof {
            assert(s@ =~= repr_pairs(pair_views(v@, 0), i as int));
        }
        s
    } else {
        String::new()
    }
}

/// Elementwise equality of two equally long arrays, from index `i` on.
pub(crate) fn eq_elems_exec(x: &Vec<MQValue>, y: &Vec<MQValue>, i: usize) -> (r: bool)
    requires
        x@.len() == y@.len(),
    ensures
        r == (forall|j: int|
            i <= j < x@.len() ==> eq_view(
                #[trigger] value_view(x@[j]),
                value_view(y@[j]),
            )),
    decreases *x, x@.len() - i, 0nat,
{
    if i < x.len() {
        if x[i].equals(&y[i]) {
            eq_elems_exec(x, y, i + 1)
        } else {
            false
        }
    } else {
        true
    }
}

/// The first unequal pair from index `i` on decides by "less than".
pub(crate) fn lt_elems_exec(x: &Vec<MQValue>, y: &Vec<MQValue>, i: usize) -> (r: bool)
    requires
        x@.len() == y@.len(),
    ensures
        r == lt_elems(elem_views(x@, 0), elem_views(y@, 0), i as int),
    decreases *x, x@.len() - i, 0nat,
{
    proof {
        lemma_elem_views_full(x@);
        lemma_elem_views_full(y@);
    }
    if i < x.len() {
        if x[i].equals(&y[i]) {
            lt_elems_exec(x, y, i + 1)
        } else {
            x[i].less_than(&y[i])
        }
    } else {
        false
    }
}

/// The first unequal pair from index `i` on decides by "greater than".
pub(crate) fn gt_elems_exec(x: &Vec<MQValue>, y: &Vec<MQValue>, i: usize) -> (r: bool)
    requires
        x@.len() == y@.len(),
    ensures
        r == gt_elems(elem_views(x@, 0), elem_views(y@, 0), i as int),
    decreases *x, x@.len() - i, 0nat,
{
    proof {
        lemma_elem_views_full(x@);
        lemma_elem_views_full(y@);
    }
    if i < x.len() {
        if x[i].equals(&y[i]) {
            gt_elems_exec(x, y, i + 1)
        } else {
            x[i].greater_than(&y[i])
        }
    } else {
        false
    }
}

impl MQValue {
    /// Element count, pair count, or character count of the leaf text.
    pub fn len(&self) -> (r: usize)
        ensures
            r == len_of(self@),
    {
        match self {
            MQValue::Array { value } => {
                proof {
                    lemma_elem_views_full(value@);
                }
                value.len()
            },
            MQValue::Dict { value } => {
                proof {
                    lemma_pair_views_full(value@);
                }
                value.len()
            },
            MQValue::Markdown { value, .. } => value.as_str().unicode_len(),
        }
    }

    /// Truthiness: the length is not zero.
    pub fn truthy(&self) -> (r: bool)
        ensures
            r == truthy(self@),
    {
        self.len() != 0
    }

    pub fn is_array(&self) -> (r: bool)
        ensures
            r == (self@ is Array),
    {
        matches!(self, MQValue::Array { .. })
    }

    pub fn is_markdown(&self) -> (r: bool)
        ensures
            r == (self@ is Leaf),
    {
        matches!(self, MQValue::Markdown { .. })
    }

    /// The rendered text of the value, as `render` states it.
    pub fn text(&self) -> (r: String)
        ensures
            r@ == render(self@),
        decreases *self, 1nat,
    {
        match self {
            MQValue::Array { value } => join_elems_exec(value, 0),
            MQValue::Dict { value } => join_pairs_exec(value, 0),
            MQValue::Markdown { value, .. } => value.clone(),
        }
    }

    /// The debug form of the value, as `repr_view` states it.
    pub fn repr(&self) -> (r: String)
        ensures
            r@ == repr_view(self@),
        decreases *self, 1nat,
    {
        match self {
            MQValue::Array { value } => {
                let mut s = String::from_str("MQValue::ARRAY([");
                let body = repr_elems_exec(value, 0);
                s.append(body.as_str());
                s.append("])");
                proof {
                    assert(s@ =~= repr_view(self@));
                }
                s
            },
            MQValue::Dict { value } => {
                let mut s = String::from_str("MQValue::MAP(");
                let body = repr_pairs_exec(value, 0);
                s.append(body.as_str());
                s.append(")");
                proof {
                    assert(s@ =~= repr_view(self@));
                }
                s
            },
            MQValue::Markdown { value, markdown_type } => {
                let mut s = String::from_str("MQValue::Markdown(\"");
                s.append(value.as_str());
                s.append("\", ");
                let name = kind_name_exec(*markdown_type);
                s.append(name.as_str());
                s.append(")");
                proof {
                    assert(s@ =~= repr_view(self@));
                }
                s
            },
        }
    }

    /// A deep, independently owned copy with the same model.
    pub fn duplicate(&self) -> (r: MQValue)
        ensures
            r@ == self@,
        decreases *self, 1nat,
    {
        match self {
            MQValue::Array { value } => {
                let out = duplicate_elems(value, value.len());
                let r = MQValue::Array { value: out };
                proof {
                    lemma_elem_views_full(out@);
                    lemma_elem_views_full(value@);
                    assert(elem_views(out@, 0) =~= elem_views(value@, 0));
                }
                r
            },
            MQValue::Dict { value } => {
                let out = duplicate_pairs(value, value.len());
                let r = MQValue::Dict { value: out };
                proof {
                    lemma_pair_views_full(out@);
                    lemma_pair_views_full(value@);
                    assert(pair_views(out@, 0) =~= pair_views(value@, 0));
                }
                r
            },
            MQValue::Markdown { value, markdown_type } => MQValue::Markdown {
                value: value.clone(),
                markdown_type: *markdown_type,
            },
        }
    }

    /// The elements the value exposes to indexing: an array hands out copies
    /// of its elements, any other value a copy of itself as a one-element
    /// sequence.
    pub fn values(&self) -> (r: Vec<MQValue>)
        ensures
            r@.len() == elems_of(self@).len(),
            forall|j: int|
                0 <= j < r@.len() ==> value_view(#[trigger] r@[j]) == elems_of(self@)[j],
    {
        match self {
            MQValue::Array { value } => {
                proof {
                    lemma_elem_views_full(value@);
                }
                duplicate_elems(value, value.len())
            },
            _ => {
                let mut out: Vec<MQValue> = Vec::new();
                out.push(self.duplicate());
                out
            },
        }
    }

    /// Bounds-checked indexed access into `values()`; an out-of-range index
    /// yields a `BoundsError` carrying that index and the elements' length.
    pub fn get(&self, idx: usize) -> (r: Result<MQValue, BoundsError>)
        ensures
            idx < elems_of(self@).len() ==> (r matches Ok(v) && v@ == elems_of(self@)[idx as int]),
            idx >= elems_of(self@).len() ==> (r matches Err(e) && e.index == idx && e.length
                == elems_of(self@).len()),
    {
        match self {
            MQValue::Array { value } => {
                proof {
                    lemma_elem_views_full(value@);
                }
                if idx < value.len() {
                    Ok(value[idx].duplicate())
                } else {
                    Err(BoundsError { index: idx, length: value.len() })
                }
            },
            _ => {
                if idx == 0 {
                    Ok(self.duplicate())
                } else {
                    Err(BoundsError { index: idx, length: 1 })
                }
            },
        }
    }

    /// Structural equality of two values, as `eq_view` states it.
    pub fn equals(&self, other: &MQValue) -> (r: bool)
        ensures
            r == eq_view(self@, other@),
        decreases *self, 1nat,
    {
        match (self, other) {
            (MQValue::Array { value: x }, MQValue::Array { value: y }) => {
                proof {
                    lemma_elem_views_full(x@);
                    lemma_elem_views_full(y@);
                }
                if x.len() != y.len() {
                    false
                } else {
                    let r = eq_elems_exec(x, y, 0);
                    proof {
                        assert forall|i: int| 0 <= i < x@.len() implies eq_view(
                            #[trigger] elem_views(x@, 0)[i],
                            elem_views(y@, 0)[i],
                        ) == eq_view(value_view(x@[i]), value_view(y@[i])) by {}
                        assert forall|i: int| 0 <= i < x@.len() implies eq_view(
                            #[trigger] value_view(x@[i]),
                            value_view(y@[i]),
                        ) == eq_view(elem_views(x@, 0)[i], elem_views(y@, 0)[i]) by {}
                    }
                    r
                }
            },
            (
                MQValue::Markdown { value: a, markdown_type: at },
                MQValue::Markdown { value: b, markdown_type: bt },
            ) => a.eq(b) && *at == *bt,
            _ => false,
        }
    }

    /// The negation of `equals`.
    pub fn not_equals(&self, other: &MQValue) -> (r: bool)
        ensures
            r == !eq_view(self@, other@),
    {
        !self.equals(other)
    }

    /// Strict "less than", as `lt_view` states it.
    pub fn less_than(&self, other: &MQValue) -> (r: bool)
        ensures
            r == lt_view(self@, other@),
        decreases *self, 1nat,
    {
        match (self, other) {
            (MQValue::Array { value: x }, MQValue::Array { value: y }) => {
                proof {
                    lemma_elem_views_full(x@);
                    lemma_elem_views_full(y@);
                }
                if x.len() != y.len() {
                    x.len() < y.len()
                } else {
                    lt_elems_exec(x, y, 0)
                }
            },
            (MQValue::Markdown { value: a, .. }, MQValue::Markdown { value: b, .. }) => {
                text_less_than_from(a.as_str(), b.as_str(), 0)
            },
            _ => false,
        }
    }

    /// Strict "greater than", as `gt_view` states it.
    pub fn greater_than(&self, other: &MQValue) -> (r: bool)
        ensures
            r == gt_view(self@, other@),
        decreases *self, 1nat,
    {
        match (self, other) {
            (MQValue::Array { value: x }, MQValue::Array { value: y }) => {
                proof {
                    lemma_elem_views_full(x@);
                    lemma_elem_views_full(y@);
                }
                if x.len() != y.len() {
                    x.len() > y.len()
                } else {
                    gt_elems_exec(x, y, 0)
                }
            },
            (MQValue::Markdown { value: a, .. }, MQValue::Markdown { value: b, .. }) => {
                text_less_than_from(b.as_str(), a.as_str(), 0)
            },
            _ => false,
        }
    }

    /// The tag of a leaf; arrays and mappings carry none.
    pub fn markdown_type(&self) -> (r: Option<MarkdownType>)
        ensures
            match self@ {
                ValueView::Leaf(_, kind) => r == Some(kind),
                _ => r is None,
            },
    {
        match self {
            MQValue::Markdown { markdown_type, .. } => Some(*markdown_type),
            _ => None,
        }
    }
}

} // verus!
