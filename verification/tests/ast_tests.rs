use msg::ast::{CellAlign, Element, ListItem, ListNode, ListStyle, TableCell};

#[test]
fn test_create_text_element() {
    let element = Element::text("Hello, world!");
    assert_eq!(element, Element::Text("Hello, world!".to_string()));
}

#[test]
fn test_create_bold_element() {
    let element = Element::bold(vec![Element::text("Bold text")]);
    assert_eq!(
        element,
        Element::Bold(vec![Element::Text("Bold text".to_string())])
    );
}

#[test]
fn test_create_link_element() {
    let element = Element::link(vec![Element::text("Click here")], "https://example.com");
    assert_eq!(
        element,
        Element::Link {
            text: vec![Element::Text("Click here".to_string())],
            url: "https://example.com".to_string(),
        }
    );
}

#[test]
fn test_create_list() {
    let list = ListNode {
        style: ListStyle::Bullet,
        items: vec![
            ListItem {
                content: vec![Element::text("Item 1")],
                nested: None,
            },
            ListItem {
                content: vec![Element::text("Item 2")],
                nested: None,
            },
        ],
    };
    let element = Element::List(list.clone());
    assert_eq!(element, Element::List(list));
}

#[test]
fn test_table_cell_default() {
    let cell = TableCell::default();
    assert_eq!(cell.align, CellAlign::Left);
    assert_eq!(cell.colspan, 1);
    assert_eq!(cell.rowspan, 1);
    assert!(cell.content.is_empty());
}
