use msg::ast::Element;
use msg::parser::parse;

#[test]
fn test_parse_simple_text() {
    let result = parse("Hello, world!").unwrap();
    assert_eq!(result, vec![Element::Text("Hello, world!".to_string())]);
}

#[test]
fn test_parse_bold() {
    let result = parse("**bold text**").unwrap();
    assert_eq!(
        result,
        vec![Element::Bold(vec![Element::Text("bold text".to_string())])]
    );
}

#[test]
fn test_parse_italic() {
    let result = parse("*italic text*").unwrap();
    assert_eq!(
        result,
        vec![Element::Italic(vec![Element::Text(
            "italic text".to_string()
        )])]
    );
}

#[test]
fn test_parse_code() {
    let result = parse("`code block`").unwrap();
    assert_eq!(result, vec![Element::Code("code block".to_string())]);
}

#[test]
fn test_parse_mention() {
    let result = parse("Hello @username!").unwrap();
    assert_eq!(
        result,
        vec![
            Element::Text("Hello ".to_string()),
            Element::Mention {
                username: "username".to_string()
            },
            Element::Text("!".to_string()),
        ]
    );
}

#[test]
fn test_parse_link() {
    let result = parse("[Google](https://google.com)").unwrap();
    assert_eq!(
        result,
        vec![Element::Link {
            text: vec![Element::Text("Google".to_string())],
            url: "https://google.com".to_string(),
        }]
    );
}

#[test]
fn test_parse_nested() {
    let result = parse("**bold *and italic* text**").unwrap();
    assert_eq!(
        result,
        vec![Element::Bold(vec![
            Element::Text("bold ".to_string()),
            Element::Italic(vec![Element::Text("and italic".to_string())]),
            Element::Text(" text".to_string()),
        ])]
    );
}

#[test]
fn test_parse_escaped() {
    let result = parse("\\*not bold\\*").unwrap();
    assert_eq!(
        result,
        vec![
            Element::Text("*".to_string()),
            Element::Text("not bold".to_string()),
            Element::Text("*".to_string()),
        ]
    );
}
