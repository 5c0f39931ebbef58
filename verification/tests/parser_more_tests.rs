use msg::ast::{Element, PreBlock};
use msg::error::Error;
use msg::parser::parse;

fn text(s: &str) -> Element {
    Element::Text(s.to_string())
}

fn reason_of(input: &str) -> String {
    match parse(input) {
        Err(Error::Parse(reason)) => reason,
        other => panic!("unexpected outcome for {:?}: {:?}", input, other),
    }
}

#[test]
fn empty_text_is_an_empty_document() {
    assert_eq!(parse("").unwrap(), Vec::<Element>::new());
}

#[test]
fn hello_mention_hashtag() {
    assert_eq!(
        parse("Hello @rustlang #rust").unwrap(),
        vec![
            text("Hello "),
            Element::Mention { username: "rustlang".to_string() },
            text(" "),
            Element::Hashtag("rust".to_string()),
        ]
    );
}

#[test]
fn unterminated_italic_fails() {
    assert_eq!(reason_of("*unterminated"), "Unclosed italic");
}

#[test]
fn unterminated_code_fails() {
    assert_eq!(reason_of("`code"), "Unclosed code block");
}

#[test]
fn unterminated_constructs_name_the_construct() {
    assert_eq!(reason_of("**bold"), "Unclosed bold");
    assert_eq!(reason_of("**bold*"), "Unclosed italic");
    assert_eq!(reason_of("_italic"), "Unclosed italic");
    assert_eq!(reason_of("__underline"), "Unclosed underline");
    assert_eq!(reason_of("~spoiler"), "Unclosed spoiler");
    assert_eq!(reason_of("~~strike"), "Unclosed strikethrough");
    assert_eq!(reason_of("[text"), "Unclosed bracket");
    assert_eq!(reason_of("[text](url"), "Unclosed link");
    assert_eq!(reason_of("```rust\ncode"), "Unclosed pre block");
    assert_eq!(reason_of("```rust\ncode``"), "Unclosed pre block");
}

#[test]
fn code_may_hold_text_only() {
    assert_eq!(reason_of("`a*b`"), "Unclosed code block");
    assert_eq!(reason_of("`a\nb`"), "Unclosed code block");
}

#[test]
fn link_without_url_fails() {
    assert_eq!(reason_of("[text]"), "Expected LeftParen, found Eof");
    assert_eq!(reason_of("[text] (url)"), "Expected LeftParen, found Text(\" \")");
    assert_eq!(reason_of("[text]@me"), "Expected LeftParen, found Mention(\"me\")");
}

#[test]
fn url_may_not_hold_a_line_feed_or_a_parenthesis() {
    assert_eq!(reason_of("[a](b\nc)"), "Unclosed link");
    assert_eq!(reason_of("[a](b(c))"), "Unclosed link");
    assert_eq!(reason_of("[a](b`c)"), "Unclosed link");
}

#[test]
fn single_and_double_delimiters() {
    assert_eq!(parse("_a_").unwrap(), vec![Element::Italic(vec![text("a")])]);
    assert_eq!(parse("__a__").unwrap(), vec![Element::Underline(vec![text("a")])]);
    assert_eq!(parse("~a~").unwrap(), vec![Element::Spoiler(vec![text("a")])]);
    assert_eq!(parse("~~a~~").unwrap(), vec![Element::Strikethrough(vec![text("a")])]);
}

#[test]
fn empty_styles() {
    assert_eq!(parse("****").unwrap(), vec![Element::Bold(vec![])]);
    assert_eq!(parse("``").unwrap(), vec![Element::Code(String::new())]);
    assert_eq!(parse("[]()").unwrap(), vec![Element::Link { text: vec![], url: String::new() }]);
}

#[test]
fn triple_star_is_bold_around_italic() {
    assert_eq!(
        parse("***a***").unwrap(),
        vec![Element::Bold(vec![Element::Italic(vec![text("a")])])]
    );
    assert_eq!(reason_of("***a** b*"), "Unclosed bold");
    assert_eq!(
        parse("***a* b**").unwrap(),
        vec![Element::Bold(vec![Element::Italic(vec![text("a")]), text(" b")])]
    );
}

#[test]
fn styles_nest_across_kinds() {
    assert_eq!(
        parse("__under ~~strike *it*~~__").unwrap(),
        vec![Element::Underline(vec![
            text("under "),
            Element::Strikethrough(vec![text("strike "), Element::Italic(vec![text("it")])]),
        ])]
    );
}

#[test]
fn inner_failure_ends_the_whole_parse() {
    assert_eq!(reason_of("ok **bold `code** rest"), "Unclosed code block");
}

#[test]
fn link_text_is_parsed_and_url_is_literal() {
    assert_eq!(
        parse("[**Rust** @home](https://x.y/@me#frag_1*~|[]{}/cmd)").unwrap(),
        vec![Element::Link {
            text: vec![
                Element::Bold(vec![text("Rust")]),
                text(" "),
                Element::Mention { username: "home".to_string() },
            ],
            url: "https://x.y/@me#frag_1*~|[]{}/cmd".to_string(),
        }]
    );
}

#[test]
fn url_with_bare_punctuation() {
    assert_eq!(
        parse("[a](/ @ # _)").unwrap(),
        vec![Element::Link { text: vec![text("a")], url: "/ @ # _".to_string() }]
    );
}

#[test]
fn command_has_no_arguments() {
    assert_eq!(
        parse("/start now").unwrap(),
        vec![Element::Command { name: "start".to_string(), args: vec![] }, text(" now")]
    );
}

#[test]
fn line_feed_is_a_text_node() {
    assert_eq!(parse("a\nb").unwrap(), vec![text("a"), text("\n"), text("b")]);
}

#[test]
fn escape_is_a_text_node_of_one_character() {
    assert_eq!(parse("\\@a\\\n").unwrap(), vec![text("@"), text("a"), text("\n")]);
}

#[test]
fn tokens_without_a_meaning_become_empty_text() {
    assert_eq!(
        parse("a|b)c{@}").unwrap(),
        vec![text("a"), text(""), text("b"), text(""), text("c"), text(""), text(""), text("")]
    );
}

#[test]
fn closing_bracket_alone_is_empty_text() {
    assert_eq!(parse("]").unwrap(), vec![text("")]);
}

#[test]
fn pre_block_with_language() {
    assert_eq!(
        parse("```rust\nfn main() {}\n```").unwrap(),
        vec![Element::Pre(PreBlock {
            code: "fn main \n".to_string(),
            language: Some("rust".to_string()),
        })]
    );
}

#[test]
fn pre_block_keeps_text_and_line_feeds() {
    assert_eq!(
        parse("```py\na = 1\nb = 2```").unwrap(),
        vec![Element::Pre(PreBlock {
            code: "a = 1\nb = 2".to_string(),
            language: Some("py".to_string()),
        })]
    );
}

#[test]
fn pre_block_without_language_keeps_the_first_line_feed() {
    assert_eq!(
        parse("```\ncode```").unwrap(),
        vec![Element::Pre(PreBlock { code: "\ncode".to_string(), language: None })]
    );
}

#[test]
fn pre_block_language_without_line_feed() {
    assert_eq!(
        parse("```code```").unwrap(),
        vec![Element::Pre(PreBlock { code: String::new(), language: Some("code".to_string()) })]
    );
}

#[test]
fn pre_block_keeps_backticks_that_do_not_close() {
    assert_eq!(
        parse("```x\na`b``c\n```").unwrap(),
        vec![Element::Pre(PreBlock {
            code: "a`b``c\n".to_string(),
            language: Some("x".to_string()),
        })]
    );
}

#[test]
fn closing_fence_is_no_part_of_the_code() {
    assert_eq!(
        parse("```\n```").unwrap(),
        vec![Element::Pre(PreBlock { code: "\n".to_string(), language: None })]
    );
}

#[test]
fn pre_block_drops_other_tokens() {
    assert_eq!(
        parse("```x\na*b@c d\n```").unwrap(),
        vec![Element::Pre(PreBlock { code: "ab d\n".to_string(), language: Some("x".to_string()) })]
    );
}

#[test]
fn text_after_a_block_goes_on() {
    assert_eq!(
        parse("```a\nb```c").unwrap(),
        vec![
            Element::Pre(PreBlock { code: "b".to_string(), language: Some("a".to_string()) }),
            text("c"),
        ]
    );
}

#[test]
fn parsed_documents_are_flat() {
    let nodes = parse("a **b** [c](d) `e` @f #g /h \\i").unwrap();
    assert!(nodes.iter().all(|node| !matches!(node, Element::Group(_))));
}
