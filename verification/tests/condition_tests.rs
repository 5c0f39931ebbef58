use msg::ast::{Condition, ConditionalFormat, Element};
use msg::conditional::{apply_conditional_format, is_greater, select_format, text_contains};

fn number(value: &str) -> Option<u64> {
    value.parse::<f64>().ok().map(f64::to_bits)
}

fn holds(condition: &Condition, value: &str) -> bool {
    condition.evaluate(value, number(value))
}

fn greater_than(threshold: f64) -> Condition {
    Condition::GreaterThan(threshold.to_bits())
}

fn less_than(threshold: f64) -> Condition {
    Condition::LessThan(threshold.to_bits())
}

#[test]
fn greater_and_less_compare_numbers() {
    assert!(holds(&greater_than(10.0), "10.5"));
    assert!(!holds(&greater_than(10.0), "10"));
    assert!(!holds(&greater_than(10.0), "9.99"));
    assert!(holds(&greater_than(10.0), "1e3"));
    assert!(holds(&less_than(10.0), "9.99"));
    assert!(!holds(&less_than(10.0), "10"));
    assert!(holds(&less_than(10.0), "-11"));
    assert!(holds(&greater_than(-10.0), "-9"));
    assert!(!holds(&greater_than(-10.0), "-11"));
}

#[test]
fn what_is_no_number_is_neither_greater_nor_less() {
    assert!(!holds(&greater_than(0.0), "many"));
    assert!(!holds(&less_than(0.0), "many"));
    assert!(!holds(&greater_than(0.0), ""));
    assert!(!holds(&greater_than(0.0), "NaN"));
    assert!(!holds(&less_than(0.0), "NaN"));
    assert!(!holds(&greater_than(f64::NAN), "1"));
    assert!(!holds(&less_than(f64::NAN), "1"));
}

#[test]
fn bits_are_ordered_as_the_numbers_are() {
    let values = [
        f64::NEG_INFINITY,
        f64::MIN,
        -1.5,
        -1.0,
        -f64::MIN_POSITIVE,
        -5e-324,
        -0.0,
        0.0,
        5e-324,
        f64::MIN_POSITIVE,
        0.1,
        1.0,
        1.0000000000000002,
        1e300,
        f64::MAX,
        f64::INFINITY,
        f64::NAN,
        -f64::NAN,
    ];
    for a in values {
        for b in values {
            assert_eq!(is_greater(a.to_bits(), b.to_bits()), a > b, "{:?} > {:?}", a, b);
        }
    }
}

#[test]
fn equals_contains_and_custom() {
    assert!(holds(&Condition::Equals("ok".to_string()), "ok"));
    assert!(!holds(&Condition::Equals("ok".to_string()), "ok "));
    assert!(!holds(&Condition::Equals("ok".to_string()), "OK"));
    assert!(holds(&Condition::Contains("rr".to_string()), "error"));
    assert!(!holds(&Condition::Contains("re".to_string()), "error"));
    assert!(holds(&Condition::Contains(String::new()), "error"));
    assert!(holds(&Condition::Contains(String::new()), ""));
    assert!(!holds(&Condition::Custom("anything".to_string()), "anything"));
    assert!(!holds(&Condition::Custom(String::new()), ""));
}

#[test]
fn contains_agrees_with_the_standard_library() {
    let texts = ["", "a", "ab", "aab", "abab", "ababc", "日本語", "aaa"];
    for text in texts {
        for needle in texts {
            assert_eq!(text_contains(text, needle), text.contains(needle), "{:?} in {:?}", needle, text);
        }
    }
}

#[test]
fn regex_matches_anywhere() {
    assert!(holds(&Condition::Regex("^[0-9]+$".to_string()), "12345"));
    assert!(!holds(&Condition::Regex("^[0-9]+$".to_string()), "12a45"));
    assert!(holds(&Condition::Regex("a+b".to_string()), "xxaaabxx"));
    assert!(holds(&Condition::Regex(String::new()), "anything"));
}

#[test]
fn pattern_that_does_not_compile_matches_nothing() {
    assert!(!holds(&Condition::Regex("(".to_string()), "("));
    assert!(!holds(&Condition::Regex("[a".to_string()), "a"));
}

fn rules() -> Vec<ConditionalFormat> {
    vec![
        ConditionalFormat { condition: greater_than(100.0) },
        ConditionalFormat { condition: Condition::Contains("!".to_string()) },
        ConditionalFormat { condition: greater_than(10.0) },
    ]
}

fn select(value: &str) -> Option<usize> {
    select_format(&Element::Text(value.to_string()), &rules(), number(value))
}

#[test]
fn first_rule_that_holds_is_selected() {
    assert_eq!(select("500"), Some(0));
    assert_eq!(select("50"), Some(2));
    assert_eq!(select("5"), None);
    assert_eq!(select("5!"), Some(1));
    assert_eq!(select(""), None);
}

#[test]
fn only_text_nodes_are_selected() {
    assert_eq!(select_format(&Element::Code("500".to_string()), &rules(), number("500")), None);
    assert_eq!(
        select_format(&Element::Bold(vec![Element::Text("500".to_string())]), &rules(), None),
        None
    );
    assert_eq!(select_format(&Element::Text("500".to_string()), &[], number("500")), None);
}

#[test]
fn first_formatted_node_stands_for_the_node() {
    let node = Element::Text("500".to_string());
    let bold = Element::Bold(vec![node.clone()]);
    assert_eq!(
        apply_conditional_format(node.clone(), Some(vec![bold.clone(), Element::Text("x".to_string())])),
        bold
    );
    assert_eq!(apply_conditional_format(node.clone(), Some(vec![])), node);
    assert_eq!(apply_conditional_format(node.clone(), None), node);
}
