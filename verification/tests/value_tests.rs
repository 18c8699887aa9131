use mq::value::{BoundsError, MQValue, MarkdownType};

fn leaf(text: &str, kind: MarkdownType) -> MQValue {
    MQValue::Markdown { value: text.to_string(), markdown_type: kind }
}

fn text_leaf(text: &str) -> MQValue {
    leaf(text, MarkdownType::Text)
}

fn array(items: Vec<MQValue>) -> MQValue {
    MQValue::Array { value: items }
}

fn dict(pairs: Vec<(&str, MQValue)>) -> MQValue {
    MQValue::Dict { value: pairs.into_iter().map(|(k, v)| (k.to_string(), v)).collect() }
}

#[test]
fn leaf_text_is_verbatim() {
    assert_eq!(text_leaf("hello").text(), "hello");
    assert_eq!(text_leaf("").text(), "");
}

#[test]
fn array_text_joins_by_newline() {
    let v = array(vec![text_leaf("a"), text_leaf("b"), text_leaf("c")]);
    assert_eq!(v.text(), "a\nb\nc");
}

#[test]
fn array_text_keeps_empty_elements() {
    let v = array(vec![text_leaf(""), text_leaf("hi")]);
    assert_eq!(v.text(), "\nhi");
}

#[test]
fn dict_text_renders_pairs() {
    let v = dict(vec![("k", text_leaf("v")), ("x", text_leaf("y"))]);
    assert_eq!(v.text(), "k: v\nx: y");
}

#[test]
fn nested_array_text() {
    let v = array(vec![array(vec![text_leaf("a"), text_leaf("b")]), text_leaf("c")]);
    assert_eq!(v.text(), "a\nb\nc");
}

#[test]
fn len_counts_elements_pairs_characters() {
    assert_eq!(array(vec![text_leaf("a"), text_leaf("b")]).len(), 2);
    assert_eq!(dict(vec![("k", text_leaf("v"))]).len(), 1);
    assert_eq!(text_leaf("abc").len(), 3);
    assert_eq!(text_leaf("").len(), 0);
}

#[test]
fn truthy_is_nonzero_length() {
    assert!(text_leaf("x").truthy());
    assert!(!text_leaf("").truthy());
    assert!(!array(vec![]).truthy());
    assert!(array(vec![text_leaf("")]).truthy());
}

#[test]
fn equality_reflexive_and_symmetric_within_variant() {
    let a = array(vec![text_leaf("a"), text_leaf("b")]);
    let b = array(vec![text_leaf("a"), text_leaf("b")]);
    assert!(a.equals(&a));
    assert!(a.equals(&b));
    assert!(b.equals(&a));
    let l = leaf("t", MarkdownType::Heading);
    assert!(l.equals(&l));
}

#[test]
fn equality_false_across_variants() {
    assert!(!array(vec![]).equals(&text_leaf("")));
    assert!(!text_leaf("").equals(&array(vec![])));
    assert!(!dict(vec![]).equals(&array(vec![])));
}

#[test]
fn mapping_equality_always_false() {
    let d = dict(vec![("k", text_leaf("v"))]);
    assert!(!d.equals(&d));
    let e = dict(vec![("k", text_leaf("v"))]);
    assert!(!d.equals(&e));
}

#[test]
fn leaf_equality_needs_text_and_kind() {
    assert!(text_leaf("a").equals(&text_leaf("a")));
    assert!(!text_leaf("a").equals(&text_leaf("b")));
    assert!(!text_leaf("a").equals(&leaf("a", MarkdownType::Heading)));
}

#[test]
fn array_ordering_shorter_wins_on_length_mismatch() {
    let short = array(vec![text_leaf("1"), text_leaf("2")]);
    let long = array(vec![text_leaf("1"), text_leaf("2"), text_leaf("3")]);
    assert!(short.less_than(&long));
    assert!(!long.less_than(&short));
    assert!(long.greater_than(&short));
    assert!(!short.greater_than(&long));
}

#[test]
fn array_ordering_first_differing_element_decides() {
    let a = array(vec![text_leaf("1"), text_leaf("2")]);
    let b = array(vec![text_leaf("1"), text_leaf("3")]);
    assert!(a.less_than(&b));
    assert!(!b.less_than(&a));
    assert!(b.greater_than(&a));
    assert!(!a.greater_than(&b));
}

#[test]
fn equal_arrays_are_not_ordered() {
    let a = array(vec![text_leaf("1")]);
    let b = array(vec![text_leaf("1")]);
    assert!(!a.less_than(&b));
    assert!(!a.greater_than(&b));
}

#[test]
fn leaf_ordering_is_lexicographic_on_text() {
    assert!(text_leaf("a").less_than(&text_leaf("b")));
    assert!(text_leaf("a").less_than(&text_leaf("ab")));
    assert!(text_leaf("").less_than(&text_leaf("a")));
    assert!(!text_leaf("b").less_than(&text_leaf("a")));
    assert!(!text_leaf("a").less_than(&text_leaf("a")));
    assert!(text_leaf("b").greater_than(&text_leaf("a")));
    let h = leaf("a", MarkdownType::Heading);
    assert!(h.less_than(&text_leaf("b")), "the tag is ignored for ordering");
}

#[test]
fn mixed_pairings_are_incomparable() {
    let a = array(vec![]);
    let l = text_leaf("a");
    let d = dict(vec![]);
    assert!(!a.less_than(&l) && !a.greater_than(&l));
    assert!(!l.less_than(&a) && !l.greater_than(&a));
    assert!(!d.less_than(&d) && !d.greater_than(&d));
    assert!(!d.less_than(&l) && !l.greater_than(&d));
}

#[test]
fn values_of_array_are_its_elements() {
    let v = array(vec![text_leaf("a"), text_leaf("b")]);
    let vals = v.values();
    assert_eq!(vals.len(), 2);
    assert_eq!(vals[0].text(), "a");
    assert_eq!(vals[1].text(), "b");
}

#[test]
fn values_of_scalar_is_singleton() {
    let v = text_leaf("x");
    let vals = v.values();
    assert_eq!(vals.len(), 1);
    assert!(vals[0].equals(&v));
}

#[test]
fn get_indexes_elements() {
    let v = array(vec![text_leaf("a"), text_leaf("b")]);
    assert_eq!(v.get(1).unwrap().text(), "b");
    let scalar = text_leaf("x");
    assert_eq!(scalar.get(0).unwrap().text(), "x");
}

#[test]
fn get_out_of_range_reports_index_and_length() {
    let v = array(vec![text_leaf("a"), text_leaf("b")]);
    let e = v.get(7).unwrap_err();
    assert_eq!(e, BoundsError { index: 7, length: 2 });
    let scalar = text_leaf("x");
    let e = scalar.get(1).unwrap_err();
    assert_eq!(e, BoundsError { index: 1, length: 1 });
}

#[test]
fn variant_predicates() {
    assert!(array(vec![]).is_array());
    assert!(!array(vec![]).is_markdown());
    assert!(text_leaf("x").is_markdown());
    assert!(!text_leaf("x").is_array());
    assert!(!dict(vec![]).is_array());
    assert!(!dict(vec![]).is_markdown());
}

#[test]
fn markdown_type_getter() {
    assert_eq!(leaf("x", MarkdownType::Code).markdown_type(), Some(MarkdownType::Code));
    assert_eq!(array(vec![]).markdown_type(), None);
    assert_eq!(dict(vec![]).markdown_type(), None);
}

#[test]
fn duplicate_is_equal_and_independent() {
    let v = array(vec![text_leaf("a"), dict(vec![("k", text_leaf("v"))])]);
    let d = v.duplicate();
    assert_eq!(d.text(), v.text());
    assert_eq!(d.len(), v.len());
}

#[test]
fn not_equals_negates_equals() {
    assert!(text_leaf("a").not_equals(&text_leaf("b")));
    assert!(!text_leaf("a").not_equals(&text_leaf("a")));
}

#[test]
fn repr_spells_structure_text_and_tag() {
    assert_eq!(
        text_leaf("hi").repr(),
        "MQValue::Markdown(\"hi\", Text)"
    );
    assert_eq!(
        array(vec![text_leaf("a"), leaf("b", MarkdownType::Code)]).repr(),
        "MQValue::ARRAY([MQValue::Markdown(\"a\", Text), MQValue::Markdown(\"b\", Code)])"
    );
    assert_eq!(
        dict(vec![("k", text_leaf("v"))]).repr(),
        "MQValue::MAP(\"k\": MQValue::Markdown(\"v\", Text))"
    );
    assert_eq!(array(vec![]).repr(), "MQValue::ARRAY([])");
}
