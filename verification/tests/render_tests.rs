use msg::ast::{flatten, Element, PreBlock};
use msg::error::Error;
use msg::formatter::{CustomFormatter, PhoneFormatter};
use msg::generator::{Generator, ParseMode};
use msg::parser::parse;

fn text(s: &str) -> Element {
    Element::Text(s.to_string())
}

fn render_with(generator: &Generator, nodes: &[Element]) -> Result<String, Error> {
    let mut out = String::new();
    for node in nodes {
        generator.generate(&mut out, node)?;
    }
    Ok(out)
}

fn render(mode: ParseMode, node: &Element) -> String {
    render_with(&Generator::new(mode), std::slice::from_ref(node)).unwrap()
}

fn markdown(node: &Element) -> String {
    render(ParseMode::MarkdownV2, node)
}

fn html(node: &Element) -> String {
    render(ParseMode::Html, node)
}

#[test]
fn plain_text_round_trips() {
    for input in ["Hello world", "a, b; c: d? e", "Привет мир", "tab\tand 'quotes'", ""] {
        let nodes = parse(input).unwrap();
        for mode in [ParseMode::MarkdownV2, ParseMode::Html] {
            let out = render_with(&Generator::new(mode), &nodes).unwrap();
            assert_eq!(out, input);
        }
    }
}

#[test]
fn plain_text_round_trips_up_to_escaping() {
    let nodes = parse("a.b!c <d> & \"e\" 1+1=2 - x > y").unwrap();
    assert_eq!(nodes, vec![text("a.b!c <d> & \"e\" 1+1=2 - x > y")]);
    assert_eq!(
        render_with(&Generator::new(ParseMode::MarkdownV2), &nodes).unwrap(),
        "a\\.b\\!c <d\\> & \"e\" 1\\+1\\=2 \\- x \\> y"
    );
    assert_eq!(
        render_with(&Generator::new(ParseMode::Html), &nodes).unwrap(),
        "a.b!c &lt;d&gt; &amp; &quot;e&quot; 1+1=2 - x &gt; y"
    );
}

#[test]
fn parsed_bold_is_wrapped_by_the_dialect() {
    let nodes = parse("**bold text**").unwrap();
    assert_eq!(
        render_with(&Generator::new(ParseMode::MarkdownV2), &nodes).unwrap(),
        "*bold text*"
    );
    assert_eq!(
        render_with(&Generator::new(ParseMode::Html), &nodes).unwrap(),
        "<b>bold text</b>"
    );
}

#[test]
fn markdown_escapes_every_reserved_character() {
    assert_eq!(
        markdown(&text("_*[]()~`>#+-=|{}.!")),
        "\\_\\*\\[\\]\\(\\)\\~\\`\\>\\#\\+\\-\\=\\|\\{\\}\\.\\!"
    );
    assert_eq!(markdown(&text("a.b!c")), "a\\.b\\!c");
    assert_eq!(markdown(&text("back\\slash & <tag>")), "back\\slash & <tag\\>");
}

#[test]
fn html_escapes_its_four_characters() {
    assert_eq!(html(&text("<b>")), "&lt;b&gt;");
    assert_eq!(html(&text("a & b \"c\" 'd'")), "a &amp; b &quot;c&quot; 'd'");
    assert_eq!(html(&text("&amp;")), "&amp;amp;");
    assert_eq!(html(&text("_*[]()~`#+-=|{}.!")), "_*[]()~`#+-=|{}.!");
}

#[test]
fn styles_in_both_dialects() {
    let inner = || vec![text("a.b")];
    assert_eq!(markdown(&Element::Italic(inner())), "_a\\.b_");
    assert_eq!(html(&Element::Italic(inner())), "<i>a.b</i>");
    assert_eq!(markdown(&Element::Underline(inner())), "__a\\.b__");
    assert_eq!(html(&Element::Underline(inner())), "<u>a.b</u>");
    assert_eq!(markdown(&Element::Strikethrough(inner())), "~~a\\.b~~");
    assert_eq!(html(&Element::Strikethrough(inner())), "<s>a.b</s>");
    assert_eq!(markdown(&Element::Spoiler(inner())), "||a\\.b||");
    assert_eq!(html(&Element::Spoiler(inner())), "<tg-spoiler>a.b</tg-spoiler>");
}

#[test]
fn children_are_not_escaped_twice() {
    let node = Element::Bold(vec![Element::Italic(vec![text("a_b")]), text("<c>")]);
    assert_eq!(markdown(&node), "*_a\\_b_<c\\>*");
    assert_eq!(html(&node), "<b><i>a_b</i>&lt;c&gt;</b>");
}

#[test]
fn code_uses_the_narrow_escaper() {
    let node = Element::Code("a.b!c `x` \\ <y>".to_string());
    assert_eq!(markdown(&node), "`a.b!c \\`x\\` \\\\ <y>`");
    assert_eq!(html(&node), "<code>a.b!c `x` \\ &lt;y&gt;</code>");
}

#[test]
fn pre_in_both_dialects() {
    let with = Element::Pre(PreBlock {
        code: "let a = `b` < 1;".to_string(),
        language: Some("c<>".to_string()),
    });
    let without = Element::Pre(PreBlock { code: "x\\y".to_string(), language: None });
    assert_eq!(markdown(&with), "```c<>\nlet a = \\`b\\` < 1;\n```");
    assert_eq!(
        html(&with),
        "<pre><code class=\"language-c&lt;&gt;\">let a = `b` &lt; 1;</code></pre>"
    );
    assert_eq!(markdown(&without), "```\nx\\\\y\n```");
    assert_eq!(html(&without), "<pre>x\\y</pre>");
}

#[test]
fn links_escape_the_url_by_its_own_rule() {
    let node = Element::Link { text: vec![text("a.b")], url: "http://x/(y)?a=\"1\"&b".to_string() };
    assert_eq!(markdown(&node), "[a\\.b](http://x/(y\\)?a=\"1\"&b)");
    assert_eq!(html(&node), "<a href=\"http://x/(y)?a=&quot;1&quot;&amp;b\">a.b</a>");
}

#[test]
fn text_links() {
    let node = Element::TextLink { text: "a<b>.".to_string(), url: "u)v&".to_string() };
    assert_eq!(markdown(&node), "[a<b\\>\\.](u\\)v&)");
    assert_eq!(html(&node), "<a href=\"u)v&amp;\">a&lt;b&gt;.</a>");
}

#[test]
fn entities_are_not_escaped() {
    for mode in [ParseMode::MarkdownV2, ParseMode::Html] {
        assert_eq!(render(mode, &Element::Mention { username: "a_b".to_string() }), "@a_b");
        assert_eq!(render(mode, &Element::Hashtag("a_b".to_string())), "#a_b");
        assert_eq!(
            render(mode, &Element::Command { name: "go_on".to_string(), args: vec![] }),
            "/go_on"
        );
        assert_eq!(
            render(
                mode,
                &Element::Command {
                    name: "set".to_string(),
                    args: vec!["a.b".to_string(), "<c>".to_string(), "d".to_string()],
                }
            ),
            "/set a.b <c> d"
        );
        assert_eq!(render(mode, &Element::Emoji("🙂.".to_string())), "🙂.");
    }
}

#[test]
fn hello_mention_hashtag_renders_verbatim() {
    let nodes = parse("Hello @rustlang #rust").unwrap();
    for mode in [ParseMode::MarkdownV2, ParseMode::Html] {
        assert_eq!(render_with(&Generator::new(mode), &nodes).unwrap(), "Hello @rustlang #rust");
    }
}

#[test]
fn mention_by_number() {
    let node = Element::MentionId { user_id: 1234567890123, text: "A.<b>".to_string() };
    assert_eq!(markdown(&node), "[A\\.<b\\>](tg://user?id=1234567890123)");
    assert_eq!(html(&node), "<a href=\"tg://user?id=1234567890123\">A.&lt;b&gt;</a>");
    let zero = Element::MentionId { user_id: 0, text: String::new() };
    assert_eq!(markdown(&zero), "[](tg://user?id=0)");
    let max = Element::MentionId { user_id: u64::MAX, text: String::new() };
    assert_eq!(html(&max), "<a href=\"tg://user?id=18446744073709551615\"></a>");
}

#[test]
fn custom_emoji() {
    let node = Element::CustomEmoji { emoji: "👍".to_string(), id: 5368324170671202286 };
    assert_eq!(markdown(&node), "![👍](tg://emoji?id=5368324170671202286)");
    assert_eq!(html(&node), "<tg-emoji emoji-id=\"5368324170671202286\">👍</tg-emoji>");
}

#[test]
fn quote_in_markdown_marks_every_line() {
    let node = Element::Quote(vec![text("one\ntwo"), text("\n"), Element::Bold(vec![text("three")])]);
    assert_eq!(markdown(&node), ">one\n>two\n>*three*");
    assert_eq!(html(&node), "<blockquote>one\ntwo\n<b>three</b></blockquote>");
}

#[test]
fn quote_in_markdown_edge_cases() {
    assert_eq!(markdown(&Element::Quote(vec![])), ">");
    assert_eq!(markdown(&Element::Quote(vec![text("a\n")])), ">a");
    assert_eq!(markdown(&Element::Quote(vec![text("a\r\nb\r")])), ">a\n>b\r");
    assert_eq!(markdown(&Element::Quote(vec![text("\n\na")])), ">\n>\n>a");
}

#[test]
fn group_is_a_splice() {
    let grouped = vec![text("a"), Element::Group(vec![text("b"), Element::Group(vec![text("c")])]), text("d")];
    let flat = vec![text("a"), text("b"), text("c"), text("d")];
    for mode in [ParseMode::MarkdownV2, ParseMode::Html] {
        let generator = Generator::new(mode);
        assert_eq!(
            render_with(&generator, &grouped).unwrap(),
            render_with(&generator, &flat).unwrap()
        );
    }
    assert_eq!(markdown(&Element::Group(vec![])), "");
}

#[test]
fn output_is_appended_to_the_writer() {
    let generator = Generator::new(ParseMode::Html);
    let mut out = String::from("<p>");
    generator.generate(&mut out, &text("a")).unwrap();
    generator.generate(&mut out, &Element::Bold(vec![text("b")])).unwrap();
    assert_eq!(out, "<p>a<b>b</b>");
}

#[test]
fn unregistered_formatter_fails() {
    let generator = Generator::new(ParseMode::MarkdownV2);
    let node = Element::Custom { formatter: "unknown".to_string(), value: "x".to_string() };
    let mut out = String::new();
    match generator.generate(&mut out, &node) {
        Err(Error::FormatterNotFound(name)) => assert_eq!(name, "unknown"),
        other => panic!("unexpected outcome: {:?}", other),
    }
    assert_eq!(out, "");
}

#[test]
fn failure_keeps_what_was_written_before_it() {
    let generator = Generator::new(ParseMode::Html);
    let node = Element::Bold(vec![
        text("a"),
        Element::Custom { formatter: "none".to_string(), value: "x".to_string() },
        text("b"),
    ]);
    let mut out = String::from("-");
    assert!(matches!(generator.generate(&mut out, &node), Err(Error::FormatterNotFound(_))));
    assert_eq!(out, "-<b>a");
}

#[test]
fn failure_inside_a_markdown_quote_writes_nothing_of_it() {
    let generator = Generator::new(ParseMode::MarkdownV2);
    let node = Element::Quote(vec![
        text("a"),
        Element::Custom { formatter: "none".to_string(), value: "x".to_string() },
    ]);
    let mut out = String::from("-");
    assert!(matches!(generator.generate(&mut out, &node), Err(Error::FormatterNotFound(_))));
    assert_eq!(out, "-");
}

#[test]
fn registered_formatter_output_is_spliced_verbatim() {
    let mut generator = Generator::new(ParseMode::MarkdownV2);
    generator.register_formatter(Box::new(PhoneFormatter));
    let node = Element::Italic(vec![Element::Custom {
        formatter: "phone".to_string(),
        value: "+1 (2)".to_string(),
    }]);
    let mut out = String::new();
    generator.generate(&mut out, &node).unwrap();
    assert_eq!(out, "_`\\+1 \\(2\\)`_");
}

struct Fixed {
    name: &'static str,
    out: &'static str,
}

impl CustomFormatter for Fixed {
    fn name(&self) -> &str {
        self.name
    }

    fn format(&self, value: &str, _mode: ParseMode) -> Result<String, Error> {
        if value.is_empty() {
            Err(Error::InvalidFormatterValue("empty".to_string()))
        } else {
            Ok(format!("{}{}", self.out, value))
        }
    }

    fn parse(&self, _input: &str) -> Option<(String, usize)> {
        None
    }
}

#[test]
fn last_registration_wins() {
    let mut generator = Generator::new(ParseMode::Html);
    generator.register_formatter(Box::new(Fixed { name: "a", out: "first:" }));
    generator.register_formatter(Box::new(Fixed { name: "b", out: "other:" }));
    generator.register_formatter(Box::new(Fixed { name: "a", out: "second:" }));
    let a = Element::Custom { formatter: "a".to_string(), value: "<x>".to_string() };
    let b = Element::Custom { formatter: "b".to_string(), value: "y".to_string() };
    assert_eq!(render_with(&generator, &[a, b]).unwrap(), "second:<x>other:y");
}

#[test]
fn formatter_failure_is_handed_on() {
    let mut generator = Generator::new(ParseMode::Html);
    generator.register_formatter(Box::new(Fixed { name: "a", out: "" }));
    let node = Element::Custom { formatter: "a".to_string(), value: String::new() };
    let mut out = String::from("-");
    match generator.generate(&mut out, &node) {
        Err(Error::InvalidFormatterValue(reason)) => assert_eq!(reason, "empty"),
        other => panic!("unexpected outcome: {:?}", other),
    }
    assert_eq!(out, "-");
}

#[test]
fn clone_keeps_the_tree() {
    let node = Element::Bold(vec![
        text("a"),
        Element::Link { text: vec![Element::Code("b".to_string())], url: "c".to_string() },
        Element::Command { name: "d".to_string(), args: vec!["e".to_string()] },
        Element::Pre(PreBlock { code: "f".to_string(), language: Some("g".to_string()) }),
    ]);
    assert_eq!(node.clone(), node);
}

#[test]
fn constructors_build_the_variants() {
    assert_eq!(Element::italic(vec![Element::text("a")]), Element::Italic(vec![text("a")]));
    assert_eq!(Element::code("a"), Element::Code("a".to_string()));
    assert_eq!(
        Element::pre("a", Some("b".to_string())),
        Element::Pre(PreBlock { code: "a".to_string(), language: Some("b".to_string()) })
    );
    assert_eq!(
        Element::text_link("a", "b"),
        Element::TextLink { text: "a".to_string(), url: "b".to_string() }
    );
    assert_eq!(Element::mention("a"), Element::Mention { username: "a".to_string() });
    assert_eq!(Element::hashtag("a"), Element::Hashtag("a".to_string()));
    assert_eq!(Element::group(vec![]), Element::Group(vec![]));
    assert_eq!(Element::underline(vec![]), Element::Underline(vec![]));
    assert_eq!(Element::strikethrough(vec![]), Element::Strikethrough(vec![]));
    assert_eq!(Element::spoiler(vec![]), Element::Spoiler(vec![]));
}

#[test]
fn flatten_replaces_groups_by_their_nodes() {
    let nested = vec![
        text("a"),
        Element::Group(vec![
            text("b"),
            Element::Group(vec![]),
            Element::Group(vec![text("c"), Element::Group(vec![text("d")])]),
        ]),
        Element::Bold(vec![Element::Group(vec![text("e")])]),
        Element::Group(vec![]),
        text("f"),
    ];
    let flat = flatten(&nested);
    assert_eq!(
        flat,
        vec![
            text("a"),
            text("b"),
            text("c"),
            text("d"),
            Element::Bold(vec![Element::Group(vec![text("e")])]),
            text("f"),
        ]
    );
    assert_eq!(flatten(&flat), flat);
    assert_eq!(flatten(&vec![]), Vec::<Element>::new());
    for mode in [ParseMode::MarkdownV2, ParseMode::Html] {
        let generator = Generator::new(mode);
        assert_eq!(
            render_with(&generator, &flat).unwrap(),
            render_with(&generator, &nested).unwrap()
        );
    }
}
