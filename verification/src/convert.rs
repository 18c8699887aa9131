//! Total conversion from the open runtime-value domain of the query engine
//! into the closed value representation, and the classifier mapping document
//! node shapes to tags.

use vstd::prelude::*;
use vstd::string::StringExecFns;

use crate::value::MQValue;
use crate::value::MarkdownType;
use crate::value::ValueView;
use crate::value::elem_views;
use crate::value::lemma_elem_views_full;
use crate::value::lemma_pair_views_full;
use crate::value::len_of;
use crate::value::pair_views;
use crate::value::truthy;
use crate::value::value_view;

verus! {

/// The shape of a document node, as the document library's node enumeration
/// exposes it. `Other` stands for any shape outside the known set, present or
/// future.
#[derive(Clone, Copy, Debug, PartialEq, Eq, Structural)]
pub enum NodeShape {
    Blockquote,
    Break,
    Definition,
    Delete,
    Heading,
    Emphasis,
    Footnote,
    FootnoteRef,
    Html,
    Yaml,
    Toml,
    Image,
    ImageRef,
    CodeInline,
    MathInline,
    Link,
    LinkRef,
    Math,
    List,
    TableAlign,
    TableRow,
    TableCell,
    Code,
    Strong,
    HorizontalRule,
    MdxFlowExpression,
    MdxJsxFlowElement,
    MdxJsxTextElement,
    MdxTextExpression,
    MdxJsEsm,
    Text,
    Other,
}

/// The tag each known node shape classifies to; every known shape gets its
/// own tag but `TableAlign`, which marks a table header. An unknown shape
/// degrades to `Empty` rather than failing.
pub open spec fn classify_view(shape: NodeShape) -> MarkdownType {
    match shape {
        NodeShape::Blockquote => MarkdownType::Blockquote,
        NodeShape::Break => MarkdownType::Break,
        NodeShape::Definition => MarkdownType::Definition,
        NodeShape::Delete => MarkdownType::Delete,
        NodeShape::Heading => MarkdownType::Heading,
        NodeShape::Emphasis => MarkdownType::Emphasis,
        NodeShape::Footnote => MarkdownType::Footnote,
        NodeShape::FootnoteRef => MarkdownType::FootnoteRef,
        NodeShape::Html => MarkdownType::Html,
        NodeShape::Yaml => MarkdownType::Yaml,
        NodeShape::Toml => MarkdownType::Toml,
        NodeShape::Image => MarkdownType::Image,
        NodeShape::ImageRef => MarkdownType::ImageRef,
        NodeShape::CodeInline => MarkdownType::CodeInline,
        NodeShape::MathInline => MarkdownType::MathInline,
        NodeShape::Link => MarkdownType::Link,
        NodeShape::LinkRef => MarkdownType::LinkRef,
        NodeShape::Math => MarkdownType::Math,
        NodeShape::List => MarkdownType::List,
        NodeShape::TableAlign => MarkdownType::TableHeader,
        NodeShape::TableRow => MarkdownType::TableRow,
        NodeShape::TableCell => MarkdownType::TableCell,
        NodeShape::Code => MarkdownType::Code,
        NodeShape::Strong => MarkdownType::Strong,
        NodeShape::HorizontalRule => MarkdownType::HorizontalRule,
        NodeShape::MdxFlowExpression => MarkdownType::MdxFlowExpression,
        NodeShape::MdxJsxFlowElement => MarkdownType::MdxJsxFlowElement,
        NodeShape::MdxJsxTextElement => MarkdownType::MdxJsxTextElement,
        NodeShape::MdxTextExpression => MarkdownType::MdxTextExpression,
        NodeShape::MdxJsEsm => MarkdownType::MdxJsEsm,
        NodeShape::Text => MarkdownType::Text,
        NodeShape::Other => MarkdownType::Empty,
    }
}

/// Total classifier from node shape to tag: every known shape maps to its own
/// non-`Empty` tag, and exactly the unknown shape maps to `Empty`.
pub fn classify(shape: NodeShape) -> (k: MarkdownType)
    ensures
        k == classify_view(shape),
        (k == MarkdownType::Empty) <==> (shape == NodeShape::Other),
{
    match shape {
        NodeShape::Blockquote => MarkdownType::Blockquote,
        NodeShape::Break => MarkdownType::Break,
        NodeShape::Definition => MarkdownType::Definition,
        NodeShape::Delete => MarkdownType::Delete,
        NodeShape::Heading => MarkdownType::Heading,
        NodeShape::Emphasis => MarkdownType::Emphasis,
        NodeShape::Footnote => MarkdownType::Footnote,
        NodeShape::FootnoteRef => MarkdownType::FootnoteRef,
        NodeShape::Html => MarkdownType::Html,
        NodeShape::Yaml => MarkdownType::Yaml,
        NodeShape::Toml => MarkdownType::Toml,
        NodeShape::Image => MarkdownType::Image,
        NodeShape::ImageRef => MarkdownType::ImageRef,
        NodeShape::CodeInline => MarkdownType::CodeInline,
        NodeShape::MathInline => MarkdownType::MathInline,
        NodeShape::Link => MarkdownType::Link,
        NodeShape::LinkRef => MarkdownType::LinkRef,
        NodeShape::Math => MarkdownType::Math,
        NodeShape::List => MarkdownType::List,
        NodeShape::TableAlign => MarkdownType::TableHeader,
        NodeShape::TableRow => MarkdownType::TableRow,
        NodeShape::TableCell => MarkdownType::TableCell,
        NodeShape::Code => MarkdownType::Code,
        NodeShape::Strong => MarkdownType::Strong,
        NodeShape::HorizontalRule => MarkdownType::HorizontalRule,
        NodeShape::MdxFlowExpression => MarkdownType::MdxFlowExpression,
        NodeShape::MdxJsxFlowElement => MarkdownType::MdxJsxFlowElement,
        NodeShape::MdxJsxTextElement => MarkdownType::MdxJsxTextElement,
        NodeShape::MdxTextExpression => MarkdownType::MdxTextExpression,
        NodeShape::MdxJsEsm => MarkdownType::MdxJsEsm,
        NodeShape::Text => MarkdownType::Text,
        NodeShape::Other => MarkdownType::Empty,
    }
}

/// A runtime value of the query engine, held as plain data: a document node
/// by its rendered text and its shape, a number by its decimal text, and the
/// non-representable values (functions, modules, an unevaluated syntax tree,
/// absence) by bare markers.
#[derive(Debug)]
pub enum RuntimeValue {
    Array { value: Vec<RuntimeValue> },
    Dict { value: Vec<(String, RuntimeValue)> },
    Markdown { text: String, shape: NodeShape },
    Str { value: String },
    Symbol { value: String },
    Number { text: String },
    Boolean { value: bool },
    Function,
    NativeFunction,
    Module,
    Ast,
    Nothing,
}

/// Mathematical model of a runtime value.
pub enum RuntimeView {
    Array(Seq<RuntimeView>),
    Dict(Seq<(Seq<char>, RuntimeView)>),
    Markdown(Seq<char>, NodeShape),
    Str(Seq<char>),
    Symbol(Seq<char>),
    Number(Seq<char>),
    Boolean(bool),
    Function,
    NativeFunction,
    Module,
    Ast,
    Nothing,
}

/// The model of a runtime value.
pub open spec fn runtime_view(rv: RuntimeValue) -> RuntimeView
    decreases rv, 0nat,
{
    match rv {
        RuntimeValue::Array { value } => RuntimeView::Array(rt_elem_views(value@, 0)),
        RuntimeValue::Dict { value } => RuntimeView::Dict(rt_pair_views(value@, 0)),
        RuntimeValue::Markdown { text, shape } => RuntimeView::Markdown(text@, shape),
        RuntimeValue::Str { value } => RuntimeView::Str(value@),
        RuntimeValue::Symbol { value } => RuntimeView::Symbol(value@),
        RuntimeValue::Number { text } => RuntimeView::Number(text@),
        RuntimeValue::Boolean { value } => RuntimeView::Boolean(value),
        RuntimeValue::Function => RuntimeView::Function,
        RuntimeValue::NativeFunction => RuntimeView::NativeFunction,
        RuntimeValue::Module => RuntimeView::Module,
        RuntimeValue::Ast => RuntimeView::Ast,
        RuntimeValue::Nothing => RuntimeView::Nothing,
    }
}

/// Models of the elements of a runtime array, from index `i` on.
pub open spec fn rt_elem_views(elems: Seq<RuntimeValue>, i: int) -> Seq<RuntimeView>
    decreases elems, elems.len() - i,
{
    if 0 <= i < elems.len() {
        seq![runtime_view(elems[i])] + rt_elem_views(elems, i + 1)
    } else {
        Seq::empty()
    }
}

/// Models of the pairs of a runtime dictionary, from index `i` on.
pub open spec fn rt_pair_views(pairs: Seq<(String, RuntimeValue)>, i: int) -> Seq<
    (Seq<char>, RuntimeView),
>
    decreases pairs, pairs.len() - i,
{
    if 0 <= i < pairs.len() {
        seq![(pairs[i].0@, runtime_view(pairs[i].1))] + rt_pair_views(pairs, i + 1)
    } else {
        Seq::empty()
    }
}

pub proof fn lemma_rt_elem_views(elems: Seq<RuntimeValue>, i: int)
    requires
        0 <= i <= elems.len(),
    ensures
        rt_elem_views(elems, i).len() == elems.len() - i,
        forall|j: int|
            i <= j < elems.len() ==> rt_elem_views(elems, i)[j - i] == runtime_view(elems[j]),
    decreases elems.len() - i,
{
    if i < elems.len() {
        lemma_rt_elem_views(elems, i + 1);
    }
}

pub proof fn lemma_rt_elem_views_full(elems: Seq<RuntimeValue>)
    ensures
        rt_elem_views(elems, 0).len() == elems.len(),
        forall|j: int|
            0 <= j < elems.len() ==> rt_elem_views(elems, 0)[j] == runtime_view(elems[j]),
{
    lemma_rt_elem_views(elems, 0);
    assert forall|j: int| 0 <= j < elems.len() implies rt_elem_views(elems, 0)[j] == runtime_view(
        elems[j],
    ) by {
        assert(rt_elem_views(elems, 0)[j - 0] == runtime_view(elems[j]));
    }
}

pub proof fn lemma_rt_pair_views(pairs: Seq<(String, RuntimeValue)>, i: int)
    requires
        0 <= i <= pairs.len(),
    ensures
        rt_pair_views(pairs, i).len() == pairs.len() - i,
        forall|j: int|
            i <= j < pairs.len() ==> rt_pair_views(pairs, i)[j - i] == (
            pairs[j].0@,
            runtime_view(pairs[j].1),
            ),
    decreases pairs.len() - i,
{
    if i < pairs.len() {
        lemma_rt_pair_views(pairs, i + 1);
    }
}

pub proof fn lemma_rt_pair_views_full(pairs: Seq<(String, RuntimeValue)>)
    ensures
        rt_pair_views(pairs, 0).len() == pairs.len(),
        forall|j: int|
            0 <= j < pairs.len() ==> rt_pair_views(pairs, 0)[j] == (
            pairs[j].0@,
            runtime_view(pairs[j].1),
            ),
{
    lemma_rt_pair_views(pairs, 0);
    assert forall|j: int| 0 <= j < pairs.len() implies rt_pair_views(pairs, 0)[j] == (
        pairs[j].0@,
        runtime_view(pairs[j].1),
    ) by {
        assert(rt_pair_views(pairs, 0)[j - 0] == (pairs[j].0@, runtime_view(pairs[j].1)));
    }
}

impl View for RuntimeValue {
    type V = RuntimeView;

    open spec fn view(&self) -> RuntimeView {
        runtime_view(*self)
    }
}

/// The conversion policy, on models: arrays and dictionaries convert
/// elementwise with order and keys preserved; a document node becomes a leaf
/// of its rendered text and classified shape; strings, symbols and numbers
/// become `Text` leaves of their text; booleans become `Text` leaves reading
/// `true` or `false`; everything non-representable collapses to the empty
/// `Empty` leaf. Total: every runtime value converts without failure.
pub open spec fn convert_view(rv: RuntimeView) -> ValueView
    decreases rv, 0nat,
{
    match rv {
        RuntimeView::Array(items) => ValueView::Array(convert_elems(items, 0)),
        RuntimeView::Dict(pairs) => ValueView::Mapping(convert_pairs(pairs, 0)),
        RuntimeView::Markdown(text, shape) => ValueView::Leaf(text, classify_view(shape)),
        RuntimeView::Str(s) => ValueView::Leaf(s, MarkdownType::Text),
        RuntimeView::Symbol(s) => ValueView::Leaf(s, MarkdownType::Text),
        RuntimeView::Number(s) => ValueView::Leaf(s, MarkdownType::Text),
        RuntimeView::Boolean(b) => ValueView::Leaf(
            if b {
                "true"@
            } else {
                "false"@
            },
            MarkdownType::Text,
        ),
        _ => ValueView::Leaf(Seq::empty(), MarkdownType::Empty),
    }
}

/// Conversions of the elements from index `i` on.
pub open spec fn convert_elems(items: Seq<RuntimeView>, i: int) -> Seq<ValueView>
    decreases items, items.len() - i,
{
    if 0 <= i < items.len() {
        seq![convert_view(items[i])] + convert_elems(items, i + 1)
    } else {
        Seq::empty()
    }
}

/// Conversions of the pairs from index `i` on, keys copied as they are.
pub open spec fn convert_pairs(pairs: Seq<(Seq<char>, RuntimeView)>, i: int) -> Seq<
    (Seq<char>, ValueView),
>
    decreases pairs, pairs.len() - i,
{
    if 0 <= i < pairs.len() {
        seq![(pairs[i].0, convert_view(pairs[i].1))] + convert_pairs(pairs, i + 1)
    } else {
        Seq::empty()
    }
}

pub proof fn lemma_convert_elems(items: Seq<RuntimeView>, i: int)
    requires
        0 <= i <= items.len(),
    ensures
        convert_elems(items, i).len() == items.len() - i,
        forall|j: int|
            i <= j < items.len() ==> convert_elems(items, i)[j - i] == convert_view(items[j]),
    decreases items.len() - i,
{
    if i < items.len() {
        lemma_convert_elems(items, i + 1);
    }
}

pub proof fn lemma_convert_elems_full(items: Seq<RuntimeView>)
    ensures
        convert_elems(items, 0).len() == items.len(),
        forall|j: int|
            0 <= j < items.len() ==> convert_elems(items, 0)[j] == convert_view(items[j]),
{
    lemma_convert_elems(items, 0);
    assert forall|j: int| 0 <= j < items.len() implies convert_elems(items, 0)[j] == convert_view(
        items[j],
    ) by {
        assert(convert_elems(items, 0)[j - 0] == convert_view(items[j]));
    }
}

pub proof fn lemma_convert_pairs(pairs: Seq<(Seq<char>, RuntimeView)>, i: int)
    requires
        0 <= i <= pairs.len(),
    ensures
        convert_pairs(pairs, i).len() == pairs.len() - i,
        forall|j: int|
            i <= j < pairs.len() ==> convert_pairs(pairs, i)[j - i] == (
            pairs[j].0,
            convert_view(pairs[j].1),
            ),
    decreases pairs.len() - i,
{
    if i < pairs.len() {
        lemma_convert_pairs(pairs, i + 1);
    }
}

pub proof fn lemma_convert_pairs_full(pairs: Seq<(Seq<char>, RuntimeView)>)
    ensures
        convert_pairs(pairs, 0).len() == pairs.len(),
        forall|j: int|
            0 <= j < pairs.len() ==> convert_pairs(pairs, 0)[j] == (
            pairs[j].0,
            convert_view(pairs[j].1),
            ),
{
    lemma_convert_pairs(pairs, 0);
    assert forall|j: int| 0 <= j < pairs.len() implies convert_pairs(pairs, 0)[j] == (
        pairs[j].0,
        convert_view(pairs[j].1),
    ) by {
        assert(convert_pairs(pairs, 0)[j - 0] == (pairs[j].0, convert_view(pairs[j].1)));
    }
}

/// Converts the first `n` elements of a runtime array.
fn convert_elems_exec(v: &Vec<RuntimeValue>, n: usize) -> (r: Vec<MQValue>)
    requires
        n <= v@.len(),
    ensures
        r@.len() == n,
        forall|j: int|
            0 <= j < n ==> value_view(#[trigger] r@[j]) == convert_view(runtime_view(v@[j])),
    decreases *v, n, 0nat,
{
    if n == 0 {
        Vec::new()
    } else {
        let mut out = convert_elems_exec(v, n - 1);
        out.push(convert(&v[n - 1]));
        out
    }
}

/// Converts the first `n` pairs of a runtime dictionary.
fn convert_pairs_exec(v: &Vec<(String, RuntimeValue)>, n: usize) -> (r: Vec<(String, MQValue)>)
    requires
        n <= v@.len(),
    ensures
        r@.len() == n,
        forall|j: int|
            0 <= j < n ==> (#[trigger] r@[j]).0@ == v@[j].0@ && value_view(r@[j].1) == convert_view(
                runtime_view(v@[j].1),
            ),
    decreases *v, n, 0nat,
{
    if n == 0 {
        Vec::new()
    } else {
        let mut out = convert_pairs_exec(v, n - 1);
        let p = &v[n - 1];
        out.push((p.0.clone(), convert(&p.1)));
        out
    }
}

/// Total conversion of a runtime value into the closed representation, as
/// `convert_view` states it. Never fails, whatever the input.
pub fn convert(rv: &RuntimeValue) -> (r: MQValue)
    ensures
        r@ == convert_view(rv@),
    decreases *rv, 1nat,
{
    match rv {
        RuntimeValue::Array { value } => {
            let out = convert_elems_exec(value, value.len());
            let r = MQValue::Array { value: out };
            proof {
                lemma_elem_views_full(out@);
                lemma_rt_elem_views_full(value@);
                lemma_convert_elems_full(rt_elem_views(value@, 0));
                assert(elem_views(out@, 0) =~= convert_elems(rt_elem_views(value@, 0), 0));
            }
            r
        },
        RuntimeValue::Dict { value } => {
            let out = convert_pairs_exec(value, value.len());
            let r = MQValue::Dict { value: out };
            proof {
                lemma_pair_views_full(out@);
                lemma_rt_pair_views_full(value@);
                lemma_convert_pairs_full(rt_pair_views(value@, 0));
                assert(pair_views(out@, 0) =~= convert_pairs(rt_pair_views(value@, 0), 0));
            }
            r
        },
        RuntimeValue::Markdown { text, shape } => MQValue::Markdown {
            value: text.clone(),
            markdown_type: classify(*shape),
        },
        RuntimeValue::Str { value } => MQValue::Markdown {
            value: value.clone(),
            markdown_type: MarkdownType::Text,
        },
        RuntimeValue::Symbol { value } => MQValue::Markdown {
            value: value.clone(),
            markdown_type: MarkdownType::Text,
        },
        RuntimeValue::Number { text } => MQValue::Markdown {
            value: text.clone(),
            markdown_type: MarkdownType::Text,
        },
        RuntimeValue::Boolean { value } => MQValue::Markdown {
            value: if *value {
                String::from_str("true")
            } else {
                String::from_str("false")
            },
            markdown_type: MarkdownType::Text,
        },
        RuntimeValue::Function => MQValue::Markdown {
            value: String::new(),
            markdown_type: MarkdownType::Empty,
        },
        RuntimeValue::NativeFunction => MQValue::Markdown {
            value: String::new(),
            markdown_type: MarkdownType::Empty,
        },
        RuntimeValue::Module => MQValue::Markdown {
            value: String::new(),
            markdown_type: MarkdownType::Empty,
        },
        RuntimeValue::Ast => MQValue::Markdown {
            value: String::new(),
            markdown_type: MarkdownType::Empty,
        },
        RuntimeValue::Nothing => MQValue::Markdown {
            value: String::new(),
            markdown_type: MarkdownType::Empty,
        },
    }
}

/// Whether the keys of a runtime dictionary's pair sequence are pairwise
/// distinct, as the engine's maps guarantee of what they hand out.
pub open spec fn rt_keys_unique(pairs: Seq<(Seq<char>, RuntimeView)>) -> bool {
    forall|i: int, j: int|
        0 <= i < j < pairs.len() ==> #[trigger] pairs[i].0 != #[trigger] pairs[j].0
}

/// Well-formedness of a runtime value: every dictionary anywhere in it has
/// pairwise distinct keys.
pub open spec fn rt_wf(rv: RuntimeView) -> bool
    decreases rv,
{
    match rv {
        RuntimeView::Array(items) => forall|i: int|
            0 <= i < items.len() ==> rt_wf(#[trigger] items[i]),
        RuntimeView::Dict(pairs) => rt_keys_unique(pairs) && (forall|i: int|
            0 <= i < pairs.len() ==> rt_wf(#[trigger] pairs[i].1)),
        _ => true,
    }
}

/// Conversion preserves well-formedness: since it copies dictionary keys as
/// they are, a runtime value whose dictionaries have pairwise distinct keys
/// converts to a value whose mappings do too.
pub proof fn lemma_convert_preserves_wf(rv: RuntimeView)
    requires
        rt_wf(rv),
    ensures
        crate::value::wf_view(convert_view(rv)),
    decreases rv,
{
    match rv {
        RuntimeView::Array(items) => {
            lemma_convert_elems_full(items);
            assert forall|i: int|
                0 <= i < convert_elems(items, 0).len() implies crate::value::wf_view(
                #[trigger] convert_elems(items, 0)[i],
            ) by {
                lemma_convert_preserves_wf(items[i]);
            }
        },
        RuntimeView::Dict(pairs) => {
            lemma_convert_pairs_full(pairs);
            let out = convert_pairs(pairs, 0);
            assert forall|i: int, j: int|
                0 <= i < j < out.len() implies #[trigger] out[i].0 != #[trigger] out[j].0 by {
                assert(pairs[i].0 != pairs[j].0);
            }
            assert forall|i: int| 0 <= i < out.len() implies crate::value::wf_view(
                #[trigger] out[i].1,
            ) by {
                lemma_convert_preserves_wf(pairs[i].1);
            }
        },
        _ => {},
    }
}

/// Conversion is structural: converting an array of N runtime values yields
/// an array of length N whose i-th element is the conversion of the i-th
/// input, in order.
pub proof fn lemma_convert_structural(items: Seq<RuntimeView>)
    ensures
        convert_view(RuntimeView::Array(items)) matches ValueView::Array(out) && out.len()
            == items.len() && (forall|i: int|
            0 <= i < items.len() ==> #[trigger] out[i] == convert_view(items[i])),
{
    lemma_convert_elems_full(items);
}

/// Empty collapse: a function, a native function, a module, an unevaluated
/// syntax tree and an absent value all convert to the empty `Empty` leaf,
/// whose length is zero and which is not truthy.
pub proof fn lemma_empty_collapse(rv: RuntimeView)
    requires
        rv is Function || rv is NativeFunction || rv is Module || rv is Ast || rv is Nothing,
    ensures
        convert_view(rv) == ValueView::Leaf(Seq::<char>::empty(), MarkdownType::Empty),
        len_of(convert_view(rv)) == 0,
        !truthy(convert_view(rv)),
{
}

} // verus!
