use mq::result::MQResult;
use mq::value::{BoundsError, MQValue, MarkdownType};

fn text_leaf(text: &str) -> MQValue {
    MQValue::Markdown { value: text.to_string(), markdown_type: MarkdownType::Text }
}

fn result_of(items: Vec<MQValue>) -> MQResult {
    MQResult::from_values(items)
}

#[test]
fn length_counts_raw_values_but_text_filters_empties() {
    let r = result_of(vec![text_leaf(""), text_leaf("hi")]);
    assert_eq!(r.len(), 2);
    assert_eq!(r.text(), "hi");
}

#[test]
fn rendered_values_filter_zero_length() {
    let r = result_of(vec![text_leaf("a"), text_leaf(""), text_leaf("b")]);
    assert_eq!(r.values(), vec!["a".to_string(), "b".to_string()]);
    assert_eq!(r.text(), "a\nb");
}

#[test]
fn empty_result_text_is_empty() {
    let r = result_of(vec![]);
    assert_eq!(r.len(), 0);
    assert_eq!(r.values(), Vec::<String>::new());
    assert_eq!(r.text(), "");
}

#[test]
fn at_out_of_range_reports_raw_length() {
    let r = result_of(vec![text_leaf(""), text_leaf("hi")]);
    let e = r.get(5).unwrap_err();
    assert_eq!(e, BoundsError { index: 5, length: 2 });
}

#[test]
fn at_in_range_hands_back_the_raw_value() {
    let r = result_of(vec![text_leaf(""), text_leaf("hi")]);
    assert_eq!(r.get(0).unwrap().text(), "");
    assert_eq!(r.get(1).unwrap().text(), "hi");
}

#[test]
fn contains_scans_with_value_equality() {
    let r = result_of(vec![text_leaf("a"), text_leaf("b")]);
    assert!(r.contains(&text_leaf("b")));
    assert!(!r.contains(&text_leaf("c")));
    let with_dict = result_of(vec![MQValue::Dict { value: vec![] }]);
    assert!(
        !with_dict.contains(&MQValue::Dict { value: vec![] }),
        "a mapping equals nothing, so containment never sees it"
    );
}

#[test]
fn result_equality_is_pairwise_at_equal_length() {
    let a = result_of(vec![text_leaf("a"), text_leaf("b")]);
    let b = result_of(vec![text_leaf("a"), text_leaf("b")]);
    let c = result_of(vec![text_leaf("a")]);
    let d = result_of(vec![text_leaf("a"), text_leaf("x")]);
    assert!(a.equals(&b));
    assert!(!a.equals(&c));
    assert!(!a.equals(&d));
    assert!(a.not_equals(&d));
}

#[test]
fn result_ordering_length_first() {
    let short = result_of(vec![text_leaf("z")]);
    let long = result_of(vec![text_leaf("a"), text_leaf("a")]);
    assert!(short.less_than(&long));
    assert!(!long.less_than(&short));
    assert!(long.greater_than(&short));
}

#[test]
fn result_ordering_first_differing_pair_decides() {
    let a = result_of(vec![text_leaf("a"), text_leaf("c")]);
    let b = result_of(vec![text_leaf("b"), text_leaf("b")]);
    assert!(a.less_than(&b), "the first pair differs and compares less");
    assert!(!a.greater_than(&b));
    assert!(b.greater_than(&a));
    let c = result_of(vec![text_leaf("a"), text_leaf("b")]);
    let d = result_of(vec![text_leaf("a"), text_leaf("c")]);
    assert!(c.less_than(&d), "an equal leading pair defers to the next");
    assert!(d.greater_than(&c));
}

#[test]
fn equal_results_are_not_ordered() {
    let a = result_of(vec![text_leaf("a")]);
    let b = result_of(vec![text_leaf("a")]);
    assert!(a.equals(&b));
    assert!(!a.less_than(&b));
    assert!(!a.greater_than(&b));
    let e = result_of(vec![]);
    let f = result_of(vec![]);
    assert!(e.equals(&f));
    assert!(!e.less_than(&f));
    assert!(!e.greater_than(&f));
}
