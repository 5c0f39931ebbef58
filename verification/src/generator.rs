//! Rendering of a document in a dialect: what each node renders to, and the
//! generator that writes it.

use crate::ast::{
    elements_view, Element, ElementView, ListNode, ListStyle, ListStyleView, ListView, PreBlock,
    PreBlockView,
};
use crate::error::{Error, ErrorView};
use crate::escape::{
    escape_code, escape_html, escape_pre, escape_text, escape_url, escaped_text, Escaper,
};
use crate::formatter::CustomFormatter;
use crate::table::{generate_table, table_outcome};
use crate::text::{
    decimal, joined, lines, push_decimal, push_joined, split_lines, string_views,
};
use vstd::prelude::*;

verus! {

/// A dialect of the output.
#[derive(Debug, Clone, Copy, PartialEq, Eq, Structural)]
pub enum ParseMode {
    MarkdownV2,
    Html,
}

/// A value that can be rendered in a dialect.
pub trait Generate {
    fn generate(&self, mode: ParseMode) -> Result<String, Error>;
}

/// The formatters that a generator knows, in the order in which their names
/// were first registered.
pub type Registry = Seq<Box<dyn CustomFormatter>>;

/// The place of the first formatter from `start` on that has the name.
pub open spec fn index_of(entries: Registry, name: Seq<char>, start: int) -> Option<int>
    decreases entries.len() - start,
{
    if 0 <= start < entries.len() {
        if entries[start].name_spec() == name {
            Some(start)
        } else {
            index_of(entries, name, start + 1)
        }
    } else {
        None
    }
}

/// What rendering gives: the text that was written, and the error that ended
/// it, if one did.
#[verifier::ext_equal]
pub struct Rendered {
    pub text: Seq<char>,
    pub failure: Option<ErrorView>,
}

impl Rendered {
    /// Text that is written as it stands.
    pub open spec fn literal(text: Seq<char>) -> Rendered {
        Rendered { text, failure: None }
    }

    /// Nothing written.
    pub open spec fn nothing() -> Rendered {
        Rendered { text: Seq::empty(), failure: None }
    }

    /// A failure before anything was written.
    pub open spec fn failed(e: ErrorView) -> Rendered {
        Rendered { text: Seq::empty(), failure: Some(e) }
    }

    /// `self`, and `next` after it unless `self` has failed.
    pub open spec fn followed_by(self, next: Rendered) -> Rendered {
        if self.failure is Some {
            self
        } else {
            Rendered { text: self.text + next.text, failure: next.failure }
        }
    }

    /// The text as a whole, or nothing of it where rendering has failed.
    pub open spec fn whole(self) -> Rendered {
        if self.failure is Some {
            Rendered { text: Seq::empty(), failure: self.failure }
        } else {
            self
        }
    }
}

/// What opens and what closes a styled node in a dialect; nothing for other
/// nodes.
pub open spec fn style_marks(element: ElementView, mode: ParseMode) -> (Seq<char>, Seq<char>) {
    match (element, mode) {
        (ElementView::Bold(_), ParseMode::MarkdownV2) => ("*"@, "*"@),
        (ElementView::Bold(_), ParseMode::Html) => ("<b>"@, "</b>"@),
        (ElementView::Italic(_), ParseMode::MarkdownV2) => ("_"@, "_"@),
        (ElementView::Italic(_), ParseMode::Html) => ("<i>"@, "</i>"@),
        (ElementView::Underline(_), ParseMode::MarkdownV2) => ("__"@, "__"@),
        (ElementView::Underline(_), ParseMode::Html) => ("<u>"@, "</u>"@),
        (ElementView::Strikethrough(_), ParseMode::MarkdownV2) => ("~~"@, "~~"@),
        (ElementView::Strikethrough(_), ParseMode::Html) => ("<s>"@, "</s>"@),
        (ElementView::Spoiler(_), ParseMode::MarkdownV2) => ("||"@, "||"@),
        (ElementView::Spoiler(_), ParseMode::Html) => ("<tg-spoiler>"@, "</tg-spoiler>"@),
        _ => (Seq::empty(), Seq::empty()),
    }
}

/// Inline code in a dialect.
pub open spec fn code_text(code: Seq<char>, mode: ParseMode) -> Seq<char> {
    match mode {
        ParseMode::MarkdownV2 => "`"@ + Escaper::Code.escaped(code) + "`"@,
        ParseMode::Html => "<code>"@ + Escaper::Html.escaped(code) + "</code>"@,
    }
}

/// A block of code in a dialect.
pub open spec fn pre_text(block: PreBlockView, mode: ParseMode) -> Seq<char> {
    match (mode, block.language) {
        (ParseMode::MarkdownV2, Some(lang)) => "```"@ + lang + "\n"@ + Escaper::Code.escaped(
            block.code,
        ) + "\n```"@,
        (ParseMode::MarkdownV2, None) => "```\n"@ + Escaper::Code.escaped(block.code) + "\n```"@,
        (ParseMode::Html, Some(lang)) => "<pre><code class=\"language-"@ + Escaper::Html.escaped(
            lang,
        ) + "\">"@ + Escaper::Html.escaped(block.code) + "</code></pre>"@,
        (ParseMode::Html, None) => "<pre>"@ + Escaper::Html.escaped(block.code) + "</pre>"@,
    }
}

/// What stands before and behind the text of a link.
pub open spec fn link_marks(url: Seq<char>, mode: ParseMode) -> (Seq<char>, Seq<char>) {
    match mode {
        ParseMode::MarkdownV2 => ("["@, "]("@ + Escaper::Url.escaped(url) + ")"@),
        ParseMode::Html => ("<a href=\""@ + Escaper::Html.escaped(url) + "\">"@, "</a>"@),
    }
}

/// A link whose text is plain.
pub open spec fn text_link_text(text: Seq<char>, url: Seq<char>, mode: ParseMode) -> Seq<char> {
    link_marks(url, mode).0 + escaped_text(text, mode) + link_marks(url, mode).1
}

/// A mention of a user by number.
pub open spec fn mention_id_text(user_id: u64, text: Seq<char>, mode: ParseMode) -> Seq<char> {
    match mode {
        ParseMode::MarkdownV2 => "["@ + Escaper::Markdown.escaped(text) + "](tg://user?id="@
            + decimal(user_id as nat) + ")"@,
        ParseMode::Html => "<a href=\"tg://user?id="@ + decimal(user_id as nat) + "\">"@
            + Escaper::Html.escaped(text) + "</a>"@,
    }
}

/// A command with its arguments.
pub open spec fn command_text(name: Seq<char>, args: Seq<Seq<char>>) -> Seq<char> {
    if args.len() == 0 {
        "/"@ + name
    } else {
        "/"@ + name + " "@ + joined(args, " "@)
    }
}

/// A custom emoji.
pub open spec fn custom_emoji_text(emoji: Seq<char>, id: u64, mode: ParseMode) -> Seq<char> {
    match mode {
        ParseMode::MarkdownV2 => "!["@ + emoji + "](tg://emoji?id="@ + decimal(id as nat) + ")"@,
        ParseMode::Html => "<tg-emoji emoji-id=\""@ + decimal(id as nat) + "\">"@ + emoji
            + "</tg-emoji>"@,
    }
}

/// A quotation in the Markdown dialect: `>` before each line of the content.
pub open spec fn quoted(content: Seq<char>) -> Seq<char> {
    ">"@ + joined(lines(content), "\n>"@)
}

/// A quotation in the Markdown dialect of content that was rendered apart:
/// nothing of it is written where the content has failed.
pub open spec fn quotation(content: Rendered) -> Rendered {
    if content.failure is Some {
        content.whole()
    } else {
        Rendered::literal(quoted(content.text))
    }
}

/// The view of the list under an item.
pub open spec fn nested_view(nested: Option<Box<ListNode>>) -> Option<ListView> {
    match nested {
        Some(list) => Some(list.view()),
        None => None,
    }
}

/// What a custom node renders to: what its formatter makes of the value, or
/// a failure where no formatter has the name.
pub open spec fn custom(
    formatter: Seq<char>,
    value: Seq<char>,
    mode: ParseMode,
    formatters: Registry,
) -> Rendered {
    match index_of(formatters, formatter, 0) {
        Some(i) => match formatters[i].format_spec(value, mode) {
            Ok(text) => Rendered::literal(text),
            Err(e) => Rendered::failed(e),
        },
        None => Rendered::failed(ErrorView::FormatterNotFound(formatter)),
    }
}

/// What stands before item `index` of a list.
pub open spec fn marker(style: ListStyleView, index: nat) -> Seq<char> {
    match style {
        ListStyleView::Bullet => "• "@,
        ListStyleView::Numbered => decimal(index + 1) + ". "@,
        ListStyleView::Custom(mark) => mark + " "@,
    }
}

/// The first `count` of `lines`, each on a line of its own and two spaces in.
pub open spec fn indented(lines: Seq<Seq<char>>, count: nat) -> Seq<char>
    decreases count,
{
    if count == 0 || count > lines.len() {
        Seq::empty()
    } else {
        indented(lines, (count - 1) as nat) + "\n"@ + "  "@ + lines[count - 1]
    }
}

/// What a node renders to in a dialect.
///
/// Literal text is escaped for the dialect, code by the narrower rule for
/// code; what the children of a node render to is taken as it is.
pub open spec fn render(element: ElementView, mode: ParseMode, formatters: Registry) -> Rendered
    decreases element, 0int,
{
    match element {
        ElementView::Text(text) => Rendered::literal(escaped_text(text, mode)),
        ElementView::Bold(children) | ElementView::Italic(children) | ElementView::Underline(
            children,
        ) | ElementView::Strikethrough(children) | ElementView::Spoiler(children) => {
            Rendered::literal(style_marks(element, mode).0).followed_by(
                render_from(children, 0, mode, formatters),
            ).followed_by(Rendered::literal(style_marks(element, mode).1))
        },
        ElementView::Code(code) => Rendered::literal(code_text(code, mode)),
        ElementView::Pre(block) => Rendered::literal(pre_text(block, mode)),
        ElementView::Link { text, url } => Rendered::literal(link_marks(url, mode).0).followed_by(
            render_from(text, 0, mode, formatters),
        ).followed_by(Rendered::literal(link_marks(url, mode).1)),
        ElementView::TextLink { text, url } => Rendered::literal(text_link_text(text, url, mode)),
        ElementView::Mention { username } => Rendered::literal("@"@ + username),
        ElementView::MentionId { user_id, text } => Rendered::literal(
            mention_id_text(user_id, text, mode),
        ),
        ElementView::Hashtag(tag) => Rendered::literal("#"@ + tag),
        ElementView::Command { name, args } => Rendered::literal(command_text(name, args)),
        ElementView::Emoji(emoji) => Rendered::literal(emoji),
        ElementView::CustomEmoji { emoji, id } => Rendered::literal(
            custom_emoji_text(emoji, id, mode),
        ),
        ElementView::List(list) => render_items(list, 0, mode, formatters),
        ElementView::Table(table) => match table_outcome(table) {
            Ok(text) => Rendered::literal(text),
            Err(e) => Rendered::failed(e),
        },
        ElementView::Quote(children) => match mode {
            ParseMode::MarkdownV2 => quotation(render_from(children, 0, mode, formatters)),
            ParseMode::Html => Rendered::literal("<blockquote>"@).followed_by(
                render_from(children, 0, mode, formatters),
            ).followed_by(Rendered::literal("</blockquote>"@)),
        },
        ElementView::Custom { formatter, value } => custom(formatter, value, mode, formatters),
        ElementView::Group(children) => render_from(children, 0, mode, formatters),
    }
}

/// What the nodes from `start` on render to, one after another; the first
/// failure ends it.
pub open spec fn render_from(
    elements: Seq<ElementView>,
    start: int,
    mode: ParseMode,
    formatters: Registry,
) -> Rendered
    decreases elements, elements.len() - start,
{
    if 0 <= start < elements.len() {
        render(elements[start], mode, formatters).followed_by(
            render_from(elements, start + 1, mode, formatters),
        )
    } else {
        Rendered::nothing()
    }
}

/// What a sequence of nodes renders to.
pub open spec fn render_all(elements: Seq<ElementView>, mode: ParseMode, formatters: Registry) -> Rendered {
    render_from(elements, 0, mode, formatters)
}

/// What the list under an item renders to: each of its lines on a line of its
/// own, two spaces in. Where the list fails, nothing of it is written.
pub open spec fn render_nested(nested: Option<ListView>, mode: ParseMode, formatters: Registry) -> Rendered
    decreases nested, 0int,
{
    match nested {
        Some(list) => {
            let inner = render_items(list, 0, mode, formatters);
            if inner.failure is Some {
                inner.whole()
            } else {
                Rendered::literal(indented(lines(inner.text), lines(inner.text).len()))
            }
        },
        None => Rendered::nothing(),
    }
}

/// What item `index` of a list renders to: its marker and content on one
/// line, then the lines of its nested list, then a line feed unless the item
/// is the last.
pub open spec fn render_item(list: ListView, index: int, mode: ParseMode, formatters: Registry) -> Rendered
    recommends
        0 <= index < list.items.len(),
    decreases list, 0int,
    when 0 <= index < list.items.len()
{
    let item = list.items[index];
    Rendered::literal(marker(list.style, index as nat)).followed_by(
        render_from(item.content, 0, mode, formatters),
    ).followed_by(render_nested(item.nested, mode, formatters)).followed_by(
        Rendered::literal(
            if index + 1 < list.items.len() {
                "\n"@
            } else {
                Seq::empty()
            },
        ),
    )
}

/// What the items of a list from `start` on render to, one after another;
/// the first failure ends it.
pub open spec fn render_items(list: ListView, start: int, mode: ParseMode, formatters: Registry) -> Rendered
    decreases list, list.items.len() - start + 1,
{
    if 0 <= start < list.items.len() {
        render_item(list, start, mode, formatters).followed_by(
            render_items(list, start + 1, mode, formatters),
        )
    } else {
        Rendered::nothing()
    }
}

/// What a list renders to.
pub open spec fn render_list(list: ListView, mode: ParseMode, formatters: Registry) -> Rendered {
    render_items(list, 0, mode, formatters)
}

/// Whether a call that turned the text `before` into `after` and returned `r`
/// has written what `out` says.
pub open spec fn produced(
    before: Seq<char>,
    after: Seq<char>,
    r: Result<(), Error>,
    out: Rendered,
) -> bool {
    &&& after == before + out.text
    &&& match out.failure {
        Some(e) => r is Err && r->Err_0@ == e,
        None => r is Ok,
    }
}

/// Writing one thing after another groups either way.
pub proof fn lemma_followed_by_assoc(a: Rendered, b: Rendered, c: Rendered)
    ensures
        a.followed_by(b).followed_by(c) == a.followed_by(b.followed_by(c)),
{
    assert(a.followed_by(b).followed_by(c) =~= a.followed_by(b.followed_by(c)));
}

/// Appends inline code.
fn push_code(writer: &mut String, code: &str, mode: ParseMode)
    ensures
        final(writer)@ == old(writer)@ + code_text(code@, mode),
{
    match mode {
        ParseMode::MarkdownV2 => {
            writer.push_str("`");
            writer.push_str(escape_code(code).as_str());
            writer.push_str("`");
        },
        ParseMode::Html => {
            writer.push_str("<code>");
            writer.push_str(escape_html(code).as_str());
            writer.push_str("</code>");
        },
    }
    assert(writer@ =~= old(writer)@ + code_text(code@, mode));
}

/// Appends a block of code.
fn push_pre(writer: &mut String, block: &PreBlock, mode: ParseMode)
    ensures
        final(writer)@ == old(writer)@ + pre_text(block@, mode),
{
    match mode {
        ParseMode::MarkdownV2 => {
            if let Some(lang) = &block.language {
                writer.push_str("```");
                writer.push_str(lang.as_str());
                writer.push_str("\n");
                writer.push_str(escape_pre(block.code.as_str()).as_str());
                writer.push_str("\n```");
            } else {
                writer.push_str("```\n");
                writer.push_str(escape_pre(block.code.as_str()).as_str());
                writer.push_str("\n```");
            }
        },
        ParseMode::Html => {
            if let Some(lang) = &block.language {
                writer.push_str("<pre><code class=\"language-");
                writer.push_str(escape_html(lang.as_str()).as_str());
                writer.push_str("\">");
                writer.push_str(escape_html(block.code.as_str()).as_str());
                writer.push_str("</code></pre>");
            } else {
                writer.push_str("<pre>");
                writer.push_str(escape_html(block.code.as_str()).as_str());
                writer.push_str("</pre>");
            }
        },
    }
    assert(writer@ =~= old(writer)@ + pre_text(block@, mode));
}

/// What opens a link.
fn link_open(url: &str, mode: ParseMode) -> (open: String)
    ensures
        open@ == link_marks(url@, mode).0,
{
    let mut open = String::new();
    match mode {
        ParseMode::MarkdownV2 => {
            open.push_str("[");
        },
        ParseMode::Html => {
            open.push_str("<a href=\"");
            open.push_str(escape_html(url).as_str());
            open.push_str("\">");
        },
    }
    assert(open@ =~= link_marks(url@, mode).0);
    open
}

/// What closes a link.
fn link_close(url: &str, mode: ParseMode) -> (close: String)
    ensures
        close@ == link_marks(url@, mode).1,
{
    let mut close = String::new();
    match mode {
        ParseMode::MarkdownV2 => {
            close.push_str("](");
            close.push_str(escape_url(url).as_str());
            close.push_str(")");
        },
        ParseMode::Html => {
            close.push_str("</a>");
        },
    }
    assert(close@ =~= link_marks(url@, mode).1);
    close
}

/// Appends a link whose text is plain.
fn push_text_link(writer: &mut String, text: &str, url: &str, mode: ParseMode)
    ensures
        final(writer)@ == old(writer)@ + text_link_text(text@, url@, mode),
{
    writer.push_str(link_open(url, mode).as_str());
    writer.push_str(escape_text(text, mode).as_str());
    writer.push_str(link_close(url, mode).as_str());
    assert(writer@ =~= old(writer)@ + text_link_text(text@, url@, mode));
}

/// Appends a mention of a user by number.
fn push_mention_id(writer: &mut String, user_id: u64, text: &str, mode: ParseMode)
    ensures
        final(writer)@ == old(writer)@ + mention_id_text(user_id, text@, mode),
{
    match mode {
        ParseMode::MarkdownV2 => {
            writer.push_str("[");
            writer.push_str(escape_text(text, mode).as_str());
            writer.push_str("](tg://user?id=");
            push_decimal(writer, user_id);
            writer.push_str(")");
        },
        ParseMode::Html => {
            writer.push_str("<a href=\"tg://user?id=");
            push_decimal(writer, user_id);
            writer.push_str("\">");
            writer.push_str(escape_html(text).as_str());
            writer.push_str("</a>");
        },
    }
    assert(writer@ =~= old(writer)@ + mention_id_text(user_id, text@, mode));
}

/// Appends a command with its arguments.
fn push_command(writer: &mut String, name: &str, args: &Vec<String>)
    ensures
        final(writer)@ == old(writer)@ + command_text(name@, string_views(args@)),
{
    writer.push_str("/");
    writer.push_str(name);
    if args.len() > 0 {
        writer.push_str(" ");
        push_joined(writer, args, " ");
    }
    assert(writer@ =~= old(writer)@ + command_text(name@, string_views(args@)));
}

/// Appends a custom emoji.
fn push_custom_emoji(writer: &mut String, emoji: &str, id: u64, mode: ParseMode)
    ensures
        final(writer)@ == old(writer)@ + custom_emoji_text(emoji@, id, mode),
{
    match mode {
        ParseMode::MarkdownV2 => {
            writer.push_str("![");
            writer.push_str(emoji);
            writer.push_str("](tg://emoji?id=");
            push_decimal(writer, id);
            writer.push_str(")");
        },
        ParseMode::Html => {
            writer.push_str("<tg-emoji emoji-id=\"");
            push_decimal(writer, id);
            writer.push_str("\">");
            writer.push_str(emoji);
            writer.push_str("</tg-emoji>");
        },
    }
    assert(writer@ =~= old(writer)@ + custom_emoji_text(emoji@, id, mode));
}

/// Appends what stands before item `index` of a list.
fn push_marker(writer: &mut String, style: &ListStyle, index: usize)
    requires
        index < usize::MAX,
    ensures
        final(writer)@ == old(writer)@ + marker(style@, index as nat),
{
    match style {
        ListStyle::Bullet => {
            writer.push_str("• ");
        },
        ListStyle::Numbered => {
            push_decimal(writer, (index + 1) as u64);
            writer.push_str(". ");
        },
        ListStyle::Custom(mark) => {
            writer.push_str(mark.as_str());
            writer.push_str(" ");
        },
    }
    assert(writer@ =~= old(writer)@ + marker(style@, index as nat));
}

/// Appends the lines of `text`, each on a line of its own and two spaces in.
fn push_indented(writer: &mut String, text: &str)
    ensures
        final(writer)@ == old(writer)@ + indented(lines(text@), lines(text@).len()),
{
    let nested_lines = split_lines(text);
    let ghost all = string_views(nested_lines@);
    let mut k: usize = 0;
    assert(writer@ =~= old(writer)@ + indented(all, 0));
    while k < nested_lines.len()
        invariant
            all == string_views(nested_lines@),
            k <= nested_lines@.len(),
            writer@ == old(writer)@ + indented(all, k as nat),
        decreases nested_lines.len() - k,
    {
        writer.push_str("\n");
        writer.push_str("  ");
        writer.push_str(nested_lines[k].as_str());
        k += 1;
        assert(writer@ =~= old(writer)@ + indented(all, k as nat));
    }
}

/// Appends a quotation in the Markdown dialect.
fn push_quoted(writer: &mut String, content: &str)
    ensures
        final(writer)@ == old(writer)@ + quoted(content@),
{
    let content_lines = split_lines(content);
    writer.push_str(">");
    push_joined(writer, &content_lines, "\n>");
    assert(writer@ =~= old(writer)@ + quoted(content@));
}

/// Renders documents in one dialect, with the formatters that were registered.
pub struct Generator {
    mode: ParseMode,
    formatters: Vec<Box<dyn CustomFormatter>>,
}

impl Generator {
    /// The dialect that the generator writes.
    pub closed spec fn mode(&self) -> ParseMode {
        self.mode
    }

    /// The registered formatters.
    pub closed spec fn registry(&self) -> Registry {
        self.formatters@
    }

    pub fn new(mode: ParseMode) -> (generator: Self)
        ensures
            generator.mode() == mode,
            generator.registry() == Seq::<Box<dyn CustomFormatter>>::empty(),
    {
        Self { mode, formatters: Vec::new() }
    }

    /// Registers a formatter under its name; one that was registered under
    /// the same name before gives way to it.
    pub fn register_formatter(&mut self, formatter: Box<dyn CustomFormatter>)
        ensures
            final(self).mode() == old(self).mode(),
            final(self).registry() == match index_of(
                old(self).registry(),
                formatter.name_spec(),
                0,
            ) {
                Some(i) => old(self).registry().update(i, formatter),
                None => old(self).registry().push(formatter),
            },
    {
        match self.find(formatter.name()) {
            Some(i) => {
                self.formatters[i] = formatter;
            },
            None => {
                self.formatters.push(formatter);
            },
        }
    }

    /// The place of the formatter that has the name, if one has.
    fn find(&self, name: &str) -> (r: Option<usize>)
        ensures
            match r {
                Some(i) => index_of(self.formatters@, name@, 0) == Some(i as int) && i
                    < self.formatters@.len(),
                None => index_of(self.formatters@, name@, 0) is None,
            },
    {
        let mut i: usize = 0;
        while i < self.formatters.len()
            invariant
                i <= self.formatters@.len(),
                index_of(self.formatters@, name@, 0) == index_of(
                    self.formatters@,
                    name@,
                    i as int,
                ),
            decreases self.formatters.len() - i,
        {
            if self.formatters[i].name().eq(name) {
                return Some(i);
            }
            i += 1;
        }
        None
    }

    /// Appends what `element` renders to in the dialect of the generator.
    /// Where rendering fails, what was written up to the failure stays.
    pub fn generate(&self, writer: &mut String, element: &Element) -> (r: Result<(), Error>)
        ensures
            produced(
                old(writer)@,
                final(writer)@,
                r,
                render(element.view(), self.mode(), self.registry()),
            ),
    {
        self.generate_element(writer, element, self.mode)
    }

    /// Appends what a custom node renders to.
    fn generate_custom(&self, writer: &mut String, formatter: &String, value: &str, mode: ParseMode) -> (r:
        Result<(), Error>)
        ensures
            produced(
                old(writer)@,
                final(writer)@,
                r,
                custom(formatter@, value@, mode, self.registry()),
            ),
    {
        match self.find(formatter.as_str()) {
            Some(i) => {
                match self.formatters[i].format(value, mode) {
                    Ok(result) => {
                        writer.push_str(result.as_str());
                        Ok(())
                    },
                    Err(e) => {
                        assert(writer@ =~= old(writer)@ + Seq::<char>::empty());
                        Err(e)
                    },
                }
            },
            None => {
                assert(writer@ =~= old(writer)@ + Seq::<char>::empty());
                Err(Error::FormatterNotFound(formatter.clone()))
            },
        }
    }

    fn generate_element(&self, writer: &mut String, element: &Element, mode: ParseMode) -> (r:
        Result<(), Error>)
        ensures
            produced(
                old(writer)@,
                final(writer)@,
                r,
                render(element.view(), mode, self.registry()),
            ),
        decreases element,
    {
        match element {
            Element::Text(text) => {
                writer.push_str(escape_text(text.as_str(), mode).as_str());
                Ok(())
            },
            Element::Bold(elements) => match mode {
                ParseMode::MarkdownV2 => self.generate_between(writer, "*", elements, "*", mode),
                ParseMode::Html => self.generate_between(writer, "<b>", elements, "</b>", mode),
            },
            Element::Italic(elements) => match mode {
                ParseMode::MarkdownV2 => self.generate_between(writer, "_", elements, "_", mode),
                ParseMode::Html => self.generate_between(writer, "<i>", elements, "</i>", mode),
            },
            Element::Code(code) => {
                push_code(writer, code.as_str(), mode);
                Ok(())
            },
            Element::Pre(block) => {
                push_pre(writer, block, mode);
                Ok(())
            },
            Element::Underline(elements) => match mode {
                ParseMode::MarkdownV2 => self.generate_between(writer, "__", elements, "__", mode),
                ParseMode::Html => self.generate_between(writer, "<u>", elements, "</u>", mode),
            },
            Element::Strikethrough(elements) => match mode {
                ParseMode::MarkdownV2 => self.generate_between(writer, "~~", elements, "~~", mode),
                ParseMode::Html => self.generate_between(writer, "<s>", elements, "</s>", mode),
            },
            Element::Spoiler(elements) => match mode {
                ParseMode::MarkdownV2 => self.generate_between(writer, "||", elements, "||", mode),
                ParseMode::Html => self.generate_between(
                    writer,
                    "<tg-spoiler>",
                    elements,
                    "</tg-spoiler>",
                    mode,
                ),
            },
            Element::Link { text, url } => {
                let open = link_open(url.as_str(), mode);
                let close = link_close(url.as_str(), mode);
                self.generate_between(writer, open.as_str(), text, close.as_str(), mode)
            },
            Element::TextLink { text, url } => {
                push_text_link(writer, text.as_str(), url.as_str(), mode);
                Ok(())
            },
            Element::Mention { username } => {
                writer.push_str("@");
                writer.push_str(username.as_str());
                assert(writer@ =~= old(writer)@ + ("@"@ + username@));
                Ok(())
            },
            Element::MentionId { user_id, text } => {
                push_mention_id(writer, *user_id, text.as_str(), mode);
                Ok(())
            },
            Element::Hashtag(tag) => {
                writer.push_str("#");
                writer.push_str(tag.as_str());
                assert(writer@ =~= old(writer)@ + ("#"@ + tag@));
                Ok(())
            },
            Element::Command { name, args } => {
                push_command(writer, name.as_str(), args);
                Ok(())
            },
            Element::Emoji(emoji) => {
                writer.push_str(emoji.as_str());
                Ok(())
            },
            Element::CustomEmoji { emoji, id } => {
                push_custom_emoji(writer, emoji.as_str(), *id, mode);
                Ok(())
            },
            Element::List(list) => self.generate_list(writer, list, mode),
            Element::Table(table) => {
                let r = generate_table(writer, table);
                assert(writer@ =~= old(writer)@ + render(
                    element.view(),
                    mode,
                    self.registry(),
                ).text);
                r
            },
            Element::Quote(elements) => match mode {
                ParseMode::MarkdownV2 => self.generate_quote(writer, elements, mode),
                ParseMode::Html => self.generate_between(
                    writer,
                    "<blockquote>",
                    elements,
                    "</blockquote>",
                    mode,
                ),
            },
            Element::Custom { formatter, value } => self.generate_custom(
                writer,
                formatter,
                value.as_str(),
                mode,
            ),
            Element::Group(elements) => self.generate_elements(writer, elements, mode),
        }
    }

    /// Appends a quotation in the Markdown dialect; nothing where its content
    /// fails.
    fn generate_quote(&self, writer: &mut String, elements: &Vec<Element>, mode: ParseMode) -> (r:
        Result<(), Error>)
        ensures
            produced(
                old(writer)@,
                final(writer)@,
                r,
                quotation(render_all(elements_view(elements@), mode, self.registry())),
            ),
        decreases elements, 1int,
    {
        let mut temp = String::new();
        match self.generate_elements(&mut temp, elements, mode) {
            Ok(()) => {},
            Err(e) => {
                assert(writer@ =~= old(writer)@ + Seq::<char>::empty());
                return Err(e);
            },
        }
        assert(temp@ =~= render_all(elements_view(elements@), mode, self.registry()).text);
        push_quoted(writer, temp.as_str());
        Ok(())
    }

    /// Appends `open`, what the nodes render to, and `close`.
    fn generate_between(
        &self,
        writer: &mut String,
        open: &str,
        elements: &Vec<Element>,
        close: &str,
        mode: ParseMode,
    ) -> (r: Result<(), Error>)
        ensures
            produced(
                old(writer)@,
                final(writer)@,
                r,
                Rendered::literal(open@).followed_by(
                    render_all(elements_view(elements@), mode, self.registry()),
                ).followed_by(Rendered::literal(close@)),
            ),
        decreases elements, 1int,
    {
        let ghost inner = render_all(elements_view(elements@), mode, self.registry());
        writer.push_str(open);
        match self.generate_elements(writer, elements, mode) {
            Ok(()) => {},
            Err(e) => {
                assert(writer@ =~= old(writer)@ + (open@ + inner.text));
                return Err(e);
            },
        }
        writer.push_str(close);
        assert(writer@ =~= old(writer)@ + (open@ + inner.text + close@));
        Ok(())
    }

    /// Appends what the nodes render to, one after another.
    fn generate_elements(&self, writer: &mut String, elements: &Vec<Element>, mode: ParseMode) -> (r:
        Result<(), Error>)
        ensures
            produced(
                old(writer)@,
                final(writer)@,
                r,
                render_all(elements_view(elements@), mode, self.registry()),
            ),
        decreases elements, 0int,
    {
        let ghost views = elements_view(elements@);
        let ghost formatters = self.registry();
        let ghost mut written: Seq<char> = Seq::empty();
        let mut i: usize = 0;
        assert(writer@ =~= old(writer)@ + written);
        assert(Rendered::literal(written).followed_by(render_from(views, 0, mode, formatters))
            =~= render_from(views, 0, mode, formatters));
        while i < elements.len()
            invariant
                views == elements_view(elements@),
                formatters == self.registry(),
                i <= elements@.len(),
                writer@ == old(writer)@ + written,
                render_from(views, 0, mode, formatters) == Rendered::literal(written).followed_by(
                    render_from(views, i as int, mode, formatters),
                ),
            decreases elements.len() - i,
        {
            let ghost one = render(views[i as int], mode, formatters);
            let ghost rest = render_from(views, i + 1, mode, formatters);
            assert(views[i as int] == elements@[i as int].view());
            proof {
                lemma_followed_by_assoc(Rendered::literal(written), one, rest);
            }
            match self.generate_element(writer, &elements[i], mode) {
                Ok(()) => {},
                Err(e) => {
                    assert(writer@ =~= old(writer)@ + (written + one.text));
                    return Err(e);
                },
            }
            proof {
                assert(Rendered::literal(written).followed_by(one) =~= Rendered::literal(
                    written + one.text,
                ));
                written = written + one.text;
                assert(writer@ =~= old(writer)@ + written);
            }
            i += 1;
        }
        assert(Rendered::literal(written).followed_by(Rendered::nothing()) =~= Rendered::literal(
            written,
        ));
        Ok(())
    }

    /// Appends what the list under an item renders to; nothing where it fails.
    fn generate_nested(&self, writer: &mut String, nested: &Option<Box<ListNode>>, mode: ParseMode) -> (r:
        Result<(), Error>)
        ensures
            produced(
                old(writer)@,
                final(writer)@,
                r,
                render_nested(nested_view(*nested), mode, self.registry()),
            ),
        decreases nested,
    {
        match nested {
            Some(inner) => {
                let mut nested_content = String::new();
                match self.generate_list(&mut nested_content, inner, mode) {
                    Ok(()) => {},
                    Err(e) => {
                        assert(writer@ =~= old(writer)@ + Seq::<char>::empty());
                        return Err(e);
                    },
                }
                assert(nested_content@ =~= render_list(inner.view(), mode, self.registry()).text);
                push_indented(writer, nested_content.as_str());
                Ok(())
            },
            None => {
                assert(writer@ =~= old(writer)@ + Seq::<char>::empty());
                Ok(())
            },
        }
    }

    /// Appends what item `index` of a list renders to.
    fn generate_item(&self, writer: &mut String, list: &ListNode, index: usize, mode: ParseMode) -> (r:
        Result<(), Error>)
        requires
            index < list.items@.len(),
        ensures
            produced(
                old(writer)@,
                final(writer)@,
                r,
                render_item(list.view(), index as int, mode, self.registry()),
            ),
        decreases list, 0int,
    {
        let item = &list.items[index];
        let ghost view = list.view();
        let ghost item_view = view.items[index as int];
        assert(item_view == item.view());
        let ghost mark = marker(view.style, index as nat);
        let ghost content = render_all(item_view.content, mode, self.registry());
        let ghost nested = render_nested(item_view.nested, mode, self.registry());
        assert(list.items@.len() <= usize::MAX) by {
            vstd::std_specs::vec::axiom_spec_len(&list.items);
        }
        push_marker(writer, &list.style, index);
        match self.generate_elements(writer, &item.content, mode) {
            Ok(()) => {},
            Err(e) => {
                assert(writer@ =~= old(writer)@ + (mark + content.text));
                return Err(e);
            },
        }
        match self.generate_nested(writer, &item.nested, mode) {
            Ok(()) => {},
            Err(e) => {
                assert(writer@ =~= old(writer)@ + (mark + content.text + nested.text));
                return Err(e);
            },
        }
        if index + 1 < list.items.len() {
            writer.push_str("\n");
            assert(writer@ =~= old(writer)@ + (mark + content.text + nested.text + "\n"@));
        } else {
            assert(writer@ =~= old(writer)@ + (mark + content.text + nested.text
                + Seq::<char>::empty()));
        }
        Ok(())
    }

    /// Appends what a list renders to.
    fn generate_list(&self, writer: &mut String, list: &ListNode, mode: ParseMode) -> (r: Result<
        (),
        Error,
    >)
        ensures
            produced(
                old(writer)@,
                final(writer)@,
                r,
                render_list(list.view(), mode, self.registry()),
            ),
        decreases list, 1int,
    {
        let ghost view = list.view();
        let ghost formatters = self.registry();
        let ghost mut written: Seq<char> = Seq::empty();
        let mut i: usize = 0;
        assert(writer@ =~= old(writer)@ + written);
        assert(Rendered::literal(written).followed_by(render_items(view, 0, mode, formatters))
            =~= render_items(view, 0, mode, formatters));
        while i < list.items.len()
            invariant
                view == list.view(),
                formatters == self.registry(),
                i <= list.items@.len(),
                writer@ == old(writer)@ + written,
                render_items(view, 0, mode, formatters) == Rendered::literal(written).followed_by(
                    render_items(view, i as int, mode, formatters),
                ),
            decreases list.items.len() - i,
        {
            let ghost one = render_item(view, i as int, mode, formatters);
            let ghost rest = render_items(view, i + 1, mode, formatters);
            proof {
                lemma_followed_by_assoc(Rendered::literal(written), one, rest);
            }
            match self.generate_item(writer, list, i, mode) {
                Ok(()) => {},
                Err(e) => {
                    assert(writer@ =~= old(writer)@ + (written + one.text));
                    return Err(e);
                },
            }
            proof {
                assert(Rendered::literal(written).followed_by(one) =~= Rendered::literal(
                    written + one.text,
                ));
                written = written + one.text;
                assert(writer@ =~= old(writer)@ + written);
            }
            i += 1;
        }
        assert(Rendered::literal(written).followed_by(Rendered::nothing()) =~= Rendered::literal(
            written,
        ));
        Ok(())
    }
}

} // verus!
