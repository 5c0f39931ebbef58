use msg::ast::{Element, ListItem, ListNode, ListStyle, PreBlock};
use msg::generator::{Generator, ParseMode};
use msg::parser::parse;

#[test]
fn test_generate_text_markdown() {
    let generator = Generator::new(ParseMode::MarkdownV2);
    let element = Element::Text("Hello, world!".to_string());
    let mut result = String::new();
    generator.generate(&mut result, &element).unwrap();
    assert_eq!(result, "Hello, world\\!");
}

#[test]
fn test_generate_text_html() {
    let generator = Generator::new(ParseMode::Html);
    let element = Element::Text("Hello <world>".to_string());
    let mut result = String::new();
    generator.generate(&mut result, &element).unwrap();
    assert_eq!(result, "Hello &lt;world&gt;");
}

#[test]
fn test_generate_bold_markdown() {
    let generator = Generator::new(ParseMode::MarkdownV2);
    let element = Element::Bold(vec![Element::Text("bold text".to_string())]);
    let mut result = String::new();
    generator.generate(&mut result, &element).unwrap();
    assert_eq!(result, "*bold text*");
}

#[test]
fn test_generate_bold_html() {
    let generator = Generator::new(ParseMode::Html);
    let element = Element::Bold(vec![Element::Text("bold text".to_string())]);
    let mut result = String::new();
    generator.generate(&mut result, &element).unwrap();
    assert_eq!(result, "<b>bold text</b>");
}

#[test]
fn test_generate_link_markdown() {
    let generator = Generator::new(ParseMode::MarkdownV2);
    let element = Element::Link {
        text: vec![Element::Text("Google".to_string())],
        url: "https://google.com".to_string(),
    };
    let mut result = String::new();
    generator.generate(&mut result, &element).unwrap();
    assert_eq!(result, "[Google](https://google.com)");
}

#[test]
fn test_generate_link_html() {
    let generator = Generator::new(ParseMode::Html);
    let element = Element::Link {
        text: vec![Element::Text("Google".to_string())],
        url: "https://google.com".to_string(),
    };
    let mut result = String::new();
    generator.generate(&mut result, &element).unwrap();
    assert_eq!(result, "<a href=\"https://google.com\">Google</a>");
}

#[test]
fn test_generate_pre_markdown() {
    let generator = Generator::new(ParseMode::MarkdownV2);
    let element = Element::Pre(PreBlock {
        code: "fn main() {\n    println!(\"Hello\");\n}".to_string(),
        language: Some("rust".to_string()),
    });
    let mut result = String::new();
    generator.generate(&mut result, &element).unwrap();
    assert_eq!(
        result,
        "```rust\nfn main() {\n    println!(\"Hello\");\n}\n```"
    );
}

#[test]
fn test_generate_list() {
    let generator = Generator::new(ParseMode::MarkdownV2);
    let element = Element::List(ListNode {
        style: ListStyle::Bullet,
        items: vec![
            ListItem {
                content: vec![Element::Text("Item 1".to_string())],
                nested: None,
            },
            ListItem {
                content: vec![Element::Text("Item 2".to_string())],
                nested: None,
            },
        ],
    });
    let mut result = String::new();
    generator.generate(&mut result, &element).unwrap();
    assert_eq!(result, "• Item 1\n• Item 2");
}

#[test]
fn test_roundtrip() {

    let markup = "**bold** *italic* `code`";
    let parsed = parse(markup).unwrap();
    let generator = Generator::new(ParseMode::MarkdownV2);

    let mut generated = String::new();
    for element in &parsed {
        generator.generate(&mut generated, element).unwrap();
    }

    assert!(generated.contains("*bold*"));
    assert!(generated.contains("_italic_"));
    assert!(generated.contains("`code`"));
}
