use msg::ast::{Element, ListItem, ListNode, ListStyle};
use msg::error::Error;
use msg::generator::{Generator, ParseMode};

fn text(s: &str) -> Element {
    Element::Text(s.to_string())
}

fn item(s: &str) -> ListItem {
    ListItem { content: vec![text(s)], nested: None }
}

fn parent(s: &str, style: ListStyle, items: Vec<ListItem>) -> ListItem {
    ListItem { content: vec![text(s)], nested: Some(Box::new(ListNode { style, items })) }
}

fn render(mode: ParseMode, list: ListNode) -> String {
    let mut out = String::new();
    Generator::new(mode).generate(&mut out, &Element::List(list)).unwrap();
    out
}

fn markdown(style: ListStyle, items: Vec<ListItem>) -> String {
    render(ParseMode::MarkdownV2, ListNode { style, items })
}

#[test]
fn empty_list_renders_to_nothing() {
    assert_eq!(markdown(ListStyle::Bullet, vec![]), "");
}

#[test]
fn numbered_list_counts_from_one() {
    let items: Vec<ListItem> = (0..11).map(|_| item("x")).collect();
    assert_eq!(
        markdown(ListStyle::Numbered, items),
        "1. x\n2. x\n3. x\n4. x\n5. x\n6. x\n7. x\n8. x\n9. x\n10. x\n11. x"
    );
}

#[test]
fn custom_marker_is_followed_by_a_space() {
    assert_eq!(
        markdown(ListStyle::Custom("->".to_string()), vec![item("a"), item("b")]),
        "-> a\n-> b"
    );
    assert_eq!(markdown(ListStyle::Custom(String::new()), vec![item("a")]), " a");
}

#[test]
fn item_content_is_rendered_in_the_dialect() {
    let items = vec![ListItem {
        content: vec![text("a.b "), Element::Bold(vec![text("<c>")])],
        nested: None,
    }];
    assert_eq!(markdown(ListStyle::Bullet, items.clone()), "• a\\.b *<c\\>*");
    assert_eq!(
        render(ParseMode::Html, ListNode { style: ListStyle::Bullet, items }),
        "• a.b <b>&lt;c&gt;</b>"
    );
}

#[test]
fn one_nested_item_is_one_indented_line() {
    assert_eq!(
        markdown(ListStyle::Bullet, vec![parent("parent", ListStyle::Bullet, vec![item("child")])]),
        "• parent\n  • child"
    );
}

#[test]
fn items_after_a_nested_list_follow_on_the_next_line() {
    assert_eq!(
        markdown(
            ListStyle::Numbered,
            vec![
                item("a"),
                parent("b", ListStyle::Bullet, vec![item("b1"), item("b2")]),
                item("c"),
            ]
        ),
        "1. a\n2. b\n  • b1\n  • b2\n3. c"
    );
}

#[test]
fn each_level_adds_two_spaces() {
    let deepest = parent("c", ListStyle::Custom("*".to_string()), vec![item("d")]);
    let middle = parent("b", ListStyle::Numbered, vec![deepest, item("e")]);
    assert_eq!(
        markdown(ListStyle::Bullet, vec![parent("a", ListStyle::Bullet, vec![middle]), item("f")]),
        "• a\n  • b\n    1. c\n      * d\n    2. e\n• f"
    );
}

#[test]
fn every_line_of_a_nested_item_is_indented() {
    assert_eq!(
        markdown(
            ListStyle::Bullet,
            vec![parent("a", ListStyle::Bullet, vec![item("two\nlines"), item("x")])]
        ),
        "• a\n  • two\n  lines\n  • x"
    );
}

#[test]
fn empty_nested_list_adds_nothing() {
    assert_eq!(
        markdown(ListStyle::Bullet, vec![parent("a", ListStyle::Bullet, vec![]), item("b")]),
        "• a\n• b"
    );
}

#[test]
fn failure_in_a_nested_list_writes_nothing_of_it() {
    let broken = ListItem {
        content: vec![Element::Custom { formatter: "none".to_string(), value: String::new() }],
        nested: None,
    };
    let list = ListNode {
        style: ListStyle::Bullet,
        items: vec![item("a"), parent("b", ListStyle::Bullet, vec![item("c"), broken]), item("d")],
    };
    let mut out = String::new();
    let outcome = Generator::new(ParseMode::Html).generate(&mut out, &Element::List(list));
    assert!(matches!(outcome, Err(Error::FormatterNotFound(_))));
    assert_eq!(out, "• a\n• b");
}

#[test]
fn clone_keeps_nested_lists() {
    let list = ListNode {
        style: ListStyle::Custom("-".to_string()),
        items: vec![parent("a", ListStyle::Numbered, vec![item("b")]), item("c")],
    };
    assert_eq!(list.clone(), list);
}
