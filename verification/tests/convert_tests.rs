use mq::convert::{NodeShape, RuntimeValue, classify, convert};
use mq::value::{MQValue, MarkdownType};

fn number(n: f64) -> RuntimeValue {
    RuntimeValue::Number { text: n.to_string() }
}

#[test]
fn converting_an_array_is_structural() {
    let input = RuntimeValue::Array {
        value: vec![
            number(1.0),
            RuntimeValue::Str { value: "a".to_string() },
            RuntimeValue::Boolean { value: false },
        ],
    };
    let v = convert(&input);
    assert!(v.is_array());
    assert_eq!(v.len(), 3);
    let elems = v.values();
    assert!(elems[0].equals(&convert(&number(1.0))));
    assert!(elems[1].equals(&convert(&RuntimeValue::Str { value: "a".to_string() })));
    assert!(elems[2].equals(&convert(&RuntimeValue::Boolean { value: false })));
}

#[test]
fn number_renders_in_decimal_form() {
    assert_eq!(convert(&number(3.14)).text(), "3.14");
    assert_eq!(convert(&number(2.0)).text(), "2");
    assert_eq!(convert(&number(3.14)).markdown_type(), Some(MarkdownType::Text));
}

#[test]
fn boolean_renders_true_or_false() {
    assert_eq!(convert(&RuntimeValue::Boolean { value: true }).text(), "true");
    assert_eq!(convert(&RuntimeValue::Boolean { value: false }).text(), "false");
    assert_eq!(
        convert(&RuntimeValue::Boolean { value: true }).markdown_type(),
        Some(MarkdownType::Text)
    );
}

#[test]
fn string_and_symbol_become_text_leaves() {
    let s = convert(&RuntimeValue::Str { value: "hi".to_string() });
    assert_eq!(s.text(), "hi");
    assert_eq!(s.markdown_type(), Some(MarkdownType::Text));
    let y = convert(&RuntimeValue::Symbol { value: "name".to_string() });
    assert_eq!(y.text(), "name");
    assert_eq!(y.markdown_type(), Some(MarkdownType::Text));
}

#[test]
fn document_node_becomes_classified_leaf() {
    let v = convert(&RuntimeValue::Markdown {
        text: "# Title".to_string(),
        shape: NodeShape::Heading,
    });
    assert_eq!(v.text(), "# Title");
    assert_eq!(v.markdown_type(), Some(MarkdownType::Heading));
}

#[test]
fn non_representable_values_collapse_to_empty() {
    for rv in [
        RuntimeValue::Function,
        RuntimeValue::NativeFunction,
        RuntimeValue::Module,
        RuntimeValue::Ast,
        RuntimeValue::Nothing,
    ] {
        let v = convert(&rv);
        assert_eq!(v.text(), "");
        assert_eq!(v.markdown_type(), Some(MarkdownType::Empty));
        assert_eq!(v.len(), 0);
        assert!(!v.truthy());
    }
}

#[test]
fn dictionary_converts_pairwise_with_keys_kept() {
    let input = RuntimeValue::Dict {
        value: vec![
            ("k".to_string(), number(1.5)),
            ("x".to_string(), RuntimeValue::Str { value: "v".to_string() }),
        ],
    };
    let v = convert(&input);
    assert!(!v.is_array());
    assert!(!v.is_markdown());
    assert_eq!(v.len(), 2);
    assert_eq!(v.text(), "k: 1.5\nx: v");
}

#[test]
fn nested_values_convert_recursively() {
    let input = RuntimeValue::Array {
        value: vec![RuntimeValue::Array { value: vec![number(1.0)] }, RuntimeValue::Nothing],
    };
    let v = convert(&input);
    assert_eq!(v.len(), 2);
    let elems = v.values();
    assert!(elems[0].is_array());
    assert_eq!(elems[0].len(), 1);
    assert_eq!(elems[1].markdown_type(), Some(MarkdownType::Empty));
}

#[test]
fn classifier_maps_every_known_shape_to_its_tag() {
    let table: Vec<(NodeShape, MarkdownType)> = vec![
        (NodeShape::Blockquote, MarkdownType::Blockquote),
        (NodeShape::Break, MarkdownType::Break),
        (NodeShape::Definition, MarkdownType::Definition),
        (NodeShape::Delete, MarkdownType::Delete),
        (NodeShape::Heading, MarkdownType::Heading),
        (NodeShape::Emphasis, MarkdownType::Emphasis),
        (NodeShape::Footnote, MarkdownType::Footnote),
        (NodeShape::FootnoteRef, MarkdownType::FootnoteRef),
        (NodeShape::Html, MarkdownType::Html),
        (NodeShape::Yaml, MarkdownType::Yaml),
        (NodeShape::Toml, MarkdownType::Toml),
        (NodeShape::Image, MarkdownType::Image),
        (NodeShape::ImageRef, MarkdownType::ImageRef),
        (NodeShape::CodeInline, MarkdownType::CodeInline),
        (NodeShape::MathInline, MarkdownType::MathInline),
        (NodeShape::Link, MarkdownType::Link),
        (NodeShape::LinkRef, MarkdownType::LinkRef),
        (NodeShape::Math, MarkdownType::Math),
        (NodeShape::List, MarkdownType::List),
        (NodeShape::TableAlign, MarkdownType::TableHeader),
        (NodeShape::TableRow, MarkdownType::TableRow),
        (NodeShape::TableCell, MarkdownType::TableCell),
        (NodeShape::Code, MarkdownType::Code),
        (NodeShape::Strong, MarkdownType::Strong),
        (NodeShape::HorizontalRule, MarkdownType::HorizontalRule),
        (NodeShape::MdxFlowExpression, MarkdownType::MdxFlowExpression),
        (NodeShape::MdxJsxFlowElement, MarkdownType::MdxJsxFlowElement),
        (NodeShape::MdxJsxTextElement, MarkdownType::MdxJsxTextElement),
        (NodeShape::MdxTextExpression, MarkdownType::MdxTextExpression),
        (NodeShape::MdxJsEsm, MarkdownType::MdxJsEsm),
        (NodeShape::Text, MarkdownType::Text),
    ];
    for (shape, expected) in table {
        let got = classify(shape);
        assert_eq!(got, expected);
        assert_ne!(got, MarkdownType::Empty, "every known shape maps to a non-empty tag");
    }
}

#[test]
fn classifier_maps_unknown_shape_to_empty() {
    assert_eq!(classify(NodeShape::Other), MarkdownType::Empty);
}

#[test]
fn conversion_of_empty_array_yields_empty_array_value() {
    let v = convert(&RuntimeValue::Array { value: vec![] });
    assert!(matches!(v, MQValue::Array { .. }));
    assert_eq!(v.len(), 0);
    assert!(!v.truthy());
}
