//! The document model: the tree of nodes that markup is parsed into and that
//! a generator renders, with the mathematical view of each type.

use crate::text::string_views;
use vstd::prelude::*;

verus! {

/// One node of a document.
#[allow(inconsistent_fields)]
#[derive(Debug, PartialEq)]
pub enum Element {
    Text(String),
    Bold(Vec<Element>),
    Italic(Vec<Element>),
    Code(String),
    Pre(PreBlock),
    Underline(Vec<Element>),
    Strikethrough(Vec<Element>),
    Spoiler(Vec<Element>),
    Link { text: Vec<Element>, url: String },
    TextLink { text: String, url: String },
    Mention { username: String },
    MentionId { user_id: u64, text: String },
    Hashtag(String),
    Command { name: String, args: Vec<String> },
    Emoji(String),
    CustomEmoji { emoji: String, id: u64 },
    List(ListNode),
    Table(TableNode),
    Quote(Vec<Element>),
    Custom { formatter: String, value: String },
    /// A splice: the children stand where the group stands.
    Group(Vec<Element>),
}

#[derive(Debug, PartialEq)]
pub struct PreBlock {
    pub code: String,
    pub language: Option<String>,
}

#[derive(Debug, PartialEq)]
pub struct ListNode {
    pub style: ListStyle,
    pub items: Vec<ListItem>,
}

#[derive(Debug, PartialEq)]
pub enum ListStyle {
    Bullet,
    Numbered,
    Custom(String),
}

#[derive(Debug, PartialEq)]
pub struct ListItem {
    pub content: Vec<Element>,
    pub nested: Option<Box<ListNode>>,
}

#[derive(Debug, PartialEq)]
pub struct TableNode {
    pub headers: Vec<TableCell>,
    pub rows: Vec<TableRow>,
    pub style: TableStyle,
    pub rules: Vec<ConditionalFormat>,
}

#[derive(Debug, PartialEq)]
pub struct TableRow {
    pub cells: Vec<TableCell>,
}

#[derive(Debug, PartialEq)]
pub struct TableCell {
    pub content: Vec<Element>,
    pub align: CellAlign,
    pub colspan: usize,
    pub rowspan: usize,
}

#[derive(Debug, Clone, Copy, PartialEq, Eq, Structural)]
pub enum CellAlign {
    Left,
    Center,
    Right,
}

#[derive(Debug, Clone, Copy, PartialEq, Eq, Structural)]
pub enum TableStyle {
    Ascii,
    Unicode,
    Minimal,
    Compact,
}

/// The mathematical value of an [`Element`].
#[allow(inconsistent_fields)]
pub enum ElementView {
    Text(Seq<char>),
    Bold(Seq<ElementView>),
    Italic(Seq<ElementView>),
    Code(Seq<char>),
    Pre(PreBlockView),
    Underline(Seq<ElementView>),
    Strikethrough(Seq<ElementView>),
    Spoiler(Seq<ElementView>),
    Link { text: Seq<ElementView>, url: Seq<char> },
    TextLink { text: Seq<char>, url: Seq<char> },
    Mention { username: Seq<char> },
    MentionId { user_id: u64, text: Seq<char> },
    Hashtag(Seq<char>),
    Command { name: Seq<char>, args: Seq<Seq<char>> },
    Emoji(Seq<char>),
    CustomEmoji { emoji: Seq<char>, id: u64 },
    List(ListView),
    Table(TableView),
    Quote(Seq<ElementView>),
    Custom { formatter: Seq<char>, value: Seq<char> },
    Group(Seq<ElementView>),
}

pub struct PreBlockView {
    pub code: Seq<char>,
    pub language: Option<Seq<char>>,
}

pub struct ListView {
    pub style: ListStyleView,
    pub items: Seq<ListItemView>,
}

pub enum ListStyleView {
    Bullet,
    Numbered,
    Custom(Seq<char>),
}

pub struct ListItemView {
    pub content: Seq<ElementView>,
    pub nested: Option<ListView>,
}

pub struct TableView {
    pub headers: Seq<TableCellView>,
    pub rows: Seq<Seq<TableCellView>>,
    pub style: TableStyle,
    pub rules: Seq<ConditionView>,
}

pub struct TableCellView {
    pub content: Seq<ElementView>,
    pub align: CellAlign,
    pub colspan: usize,
    pub rowspan: usize,
}

/// A rule that selects another rendering for a text node: the predicate.
///
/// The transformation that goes with a rule is code of the caller's, which the
/// caller keeps beside the rule and applies to the node that the rule selects.
#[derive(Debug)]
pub struct ConditionalFormat {
    pub condition: Condition,
}

/// No two rules count as equal.
impl PartialEq for ConditionalFormat {
    fn eq(&self, other: &Self) -> (r: bool) {
        false
    }
}

impl vstd::std_specs::cmp::PartialEqSpecImpl for ConditionalFormat {
    open spec fn obeys_eq_spec() -> bool {
        true
    }

    open spec fn eq_spec(&self, other: &Self) -> bool {
        false
    }
}

/// A predicate over the text of a node.
///
/// The two numeric variants hold their threshold as the bit pattern of an
/// IEEE 754 binary64 number.
#[derive(Debug, PartialEq)]
pub enum Condition {
    GreaterThan(u64),
    LessThan(u64),
    Equals(String),
    Contains(String),
    Regex(String),
    Custom(String),
}

pub enum ConditionView {
    GreaterThan(u64),
    LessThan(u64),
    Equals(Seq<char>),
    Contains(Seq<char>),
    Regex(Seq<char>),
    Custom(Seq<char>),
}

impl View for Condition {
    type V = ConditionView;

    open spec fn view(&self) -> ConditionView {
        match self {
            Condition::GreaterThan(t) => ConditionView::GreaterThan(*t),
            Condition::LessThan(t) => ConditionView::LessThan(*t),
            Condition::Equals(s) => ConditionView::Equals(s@),
            Condition::Contains(s) => ConditionView::Contains(s@),
            Condition::Regex(s) => ConditionView::Regex(s@),
            Condition::Custom(s) => ConditionView::Custom(s@),
        }
    }
}

impl View for ConditionalFormat {
    type V = ConditionView;

    open spec fn view(&self) -> ConditionView {
        self.condition@
    }
}

pub open spec fn rules_view(v: Seq<ConditionalFormat>) -> Seq<ConditionView> {
    Seq::new(v.len(), |i: int| v[i]@)
}

pub open spec fn elements_view(v: Seq<Element>) -> Seq<ElementView>
    decreases v, 0int,
{
    Seq::new(
        v.len(),
        |i: int|
            if 0 <= i < v.len() {
                v[i].view()
            } else {
                arbitrary()
            },
    )
}

pub open spec fn items_view(v: Seq<ListItem>) -> Seq<ListItemView>
    decreases v, 0int,
{
    Seq::new(
        v.len(),
        |i: int|
            if 0 <= i < v.len() {
                v[i].view()
            } else {
                arbitrary()
            },
    )
}

pub open spec fn cells_view(v: Seq<TableCell>) -> Seq<TableCellView>
    decreases v, 0int,
{
    Seq::new(
        v.len(),
        |i: int|
            if 0 <= i < v.len() {
                v[i].view()
            } else {
                arbitrary()
            },
    )
}

pub open spec fn rows_view(v: Seq<TableRow>) -> Seq<Seq<TableCellView>>
    decreases v, 0int,
{
    Seq::new(
        v.len(),
        |i: int|
            if 0 <= i < v.len() {
                v[i].view()
            } else {
                arbitrary()
            },
    )
}

impl Element {
    pub open spec fn view(&self) -> ElementView
        decreases self, 1int,
    {
        match self {
            Element::Text(s) => ElementView::Text(s@),
            Element::Bold(v) => ElementView::Bold(elements_view(v@)),
            Element::Italic(v) => ElementView::Italic(elements_view(v@)),
            Element::Code(s) => ElementView::Code(s@),
            Element::Pre(b) => ElementView::Pre(b@),
            Element::Underline(v) => ElementView::Underline(elements_view(v@)),
            Element::Strikethrough(v) => ElementView::Strikethrough(elements_view(v@)),
            Element::Spoiler(v) => ElementView::Spoiler(elements_view(v@)),
            Element::Link { text, url } => ElementView::Link {
                text: elements_view(text@),
                url: url@,
            },
            Element::TextLink { text, url } => ElementView::TextLink { text: text@, url: url@ },
            Element::Mention { username } => ElementView::Mention { username: username@ },
            Element::MentionId { user_id, text } => ElementView::MentionId {
                user_id: *user_id,
                text: text@,
            },
            Element::Hashtag(s) => ElementView::Hashtag(s@),
            Element::Command { name, args } => ElementView::Command {
                name: name@,
                args: string_views(args@),
            },
            Element::Emoji(s) => ElementView::Emoji(s@),
            Element::CustomEmoji { emoji, id } => ElementView::CustomEmoji {
                emoji: emoji@,
                id: *id,
            },
            Element::List(list) => ElementView::List(list.view()),
            Element::Table(table) => ElementView::Table(table.view()),
            Element::Quote(v) => ElementView::Quote(elements_view(v@)),
            Element::Custom { formatter, value } => ElementView::Custom {
                formatter: formatter@,
                value: value@,
            },
            Element::Group(v) => ElementView::Group(elements_view(v@)),
        }
    }
}

impl View for PreBlock {
    type V = PreBlockView;

    open spec fn view(&self) -> PreBlockView {
        PreBlockView {
            code: self.code@,
            language: match self.language {
                Some(s) => Some(s@),
                None => None,
            },
        }
    }
}

impl View for ListStyle {
    type V = ListStyleView;

    open spec fn view(&self) -> ListStyleView {
        match self {
            ListStyle::Bullet => ListStyleView::Bullet,
            ListStyle::Numbered => ListStyleView::Numbered,
            ListStyle::Custom(s) => ListStyleView::Custom(s@),
        }
    }
}

impl ListNode {
    pub open spec fn view(&self) -> ListView
        decreases self, 1int,
    {
        ListView { style: self.style@, items: items_view(self.items@) }
    }
}

impl ListItem {
    pub open spec fn view(&self) -> ListItemView
        decreases self, 1int,
    {
        ListItemView {
            content: elements_view(self.content@),
            nested: match self.nested {
                Some(list) => Some(list.view()),
                None => None,
            },
        }
    }
}

impl TableNode {
    pub open spec fn view(&self) -> TableView
        decreases self, 1int,
    {
        TableView {
            headers: cells_view(self.headers@),
            rows: rows_view(self.rows@),
            style: self.style,
            rules: rules_view(self.rules@),
        }
    }
}

impl TableRow {
    pub open spec fn view(&self) -> Seq<TableCellView>
        decreases self, 1int,
    {
        cells_view(self.cells@)
    }
}

impl TableCell {
    pub open spec fn view(&self) -> TableCellView
        decreases self, 1int,
    {
        TableCellView {
            content: elements_view(self.content@),
            align: self.align,
            colspan: self.colspan,
            rowspan: self.rowspan,
        }
    }
}

/// A copy of a vector of strings.
pub fn clone_strings(v: &Vec<String>) -> (out: Vec<String>)
    ensures
        string_views(out@) == string_views(v@),
{
    let mut out: Vec<String> = Vec::new();
    let mut i: usize = 0;
    while i < v.len()
        invariant
            i <= v.len(),
            out@.len() == i,
            forall|j: int| 0 <= j < i ==> out@[j]@ == v@[j]@,
        decreases v.len() - i,
    {
        out.push(v[i].clone());
        i += 1;
    }
    assert(string_views(out@) =~= string_views(v@));
    out
}

/// A copy of a vector of nodes.
pub fn clone_elements(v: &Vec<Element>) -> (out: Vec<Element>)
    ensures
        elements_view(out@) == elements_view(v@),
    decreases v,
{
    let mut out: Vec<Element> = Vec::new();
    let mut i: usize = 0;
    while i < v.len()
        invariant
            i <= v.len(),
            out@.len() == i,
            forall|j: int| 0 <= j < i ==> out@[j].view() == v@[j].view(),
        decreases v.len() - i,
    {
        out.push(v[i].clone());
        i += 1;
    }
    assert(elements_view(out@) =~= elements_view(v@));
    out
}

fn clone_items(v: &Vec<ListItem>) -> (out: Vec<ListItem>)
    ensures
        items_view(out@) == items_view(v@),
    decreases v,
{
    let mut out: Vec<ListItem> = Vec::new();
    let mut i: usize = 0;
    while i < v.len()
        invariant
            i <= v.len(),
            out@.len() == i,
            forall|j: int| 0 <= j < i ==> out@[j].view() == v@[j].view(),
        decreases v.len() - i,
    {
        out.push(v[i].clone());
        i += 1;
    }
    assert(items_view(out@) =~= items_view(v@));
    out
}

fn clone_cells(v: &Vec<TableCell>) -> (out: Vec<TableCell>)
    ensures
        cells_view(out@) == cells_view(v@),
    decreases v,
{
    let mut out: Vec<TableCell> = Vec::new();
    let mut i: usize = 0;
    while i < v.len()
        invariant
            i <= v.len(),
            out@.len() == i,
            forall|j: int| 0 <= j < i ==> out@[j].view() == v@[j].view(),
        decreases v.len() - i,
    {
        out.push(v[i].clone());
        i += 1;
    }
    assert(cells_view(out@) =~= cells_view(v@));
    out
}

fn clone_rows(v: &Vec<TableRow>) -> (out: Vec<TableRow>)
    ensures
        rows_view(out@) == rows_view(v@),
    decreases v,
{
    let mut out: Vec<TableRow> = Vec::new();
    let mut i: usize = 0;
    while i < v.len()
        invariant
            i <= v.len(),
            out@.len() == i,
            forall|j: int| 0 <= j < i ==> out@[j].view() == v@[j].view(),
        decreases v.len() - i,
    {
        out.push(v[i].clone());
        i += 1;
    }
    assert(rows_view(out@) =~= rows_view(v@));
    out
}

fn clone_rules(v: &Vec<ConditionalFormat>) -> (out: Vec<ConditionalFormat>)
    ensures
        rules_view(out@) == rules_view(v@),
{
    let mut out: Vec<ConditionalFormat> = Vec::new();
    let mut i: usize = 0;
    while i < v.len()
        invariant
            i <= v.len(),
            out@.len() == i,
            forall|j: int| 0 <= j < i ==> out@[j]@ == v@[j]@,
        decreases v.len() - i,
    {
        out.push(v[i].clone());
        i += 1;
    }
    assert(rules_view(out@) =~= rules_view(v@));
    out
}

impl Clone for Condition {
    fn clone(&self) -> (r: Self)
        ensures
            r@ == self@,
    {
        match self {
            Condition::GreaterThan(t) => Condition::GreaterThan(*t),
            Condition::LessThan(t) => Condition::LessThan(*t),
            Condition::Equals(s) => Condition::Equals(s.clone()),
            Condition::Contains(s) => Condition::Contains(s.clone()),
            Condition::Regex(s) => Condition::Regex(s.clone()),
            Condition::Custom(s) => Condition::Custom(s.clone()),
        }
    }
}

impl Clone for ConditionalFormat {
    fn clone(&self) -> (r: Self)
        ensures
            r@ == self@,
    {
        ConditionalFormat { condition: self.condition.clone() }
    }
}

impl Clone for PreBlock {
    fn clone(&self) -> (r: Self)
        ensures
            r@ == self@,
    {
        PreBlock {
            code: self.code.clone(),
            language: match &self.language {
                Some(s) => Some(s.clone()),
                None => None,
            },
        }
    }
}

impl Clone for ListStyle {
    fn clone(&self) -> (r: Self)
        ensures
            r@ == self@,
    {
        match self {
            ListStyle::Bullet => ListStyle::Bullet,
            ListStyle::Numbered => ListStyle::Numbered,
            ListStyle::Custom(s) => ListStyle::Custom(s.clone()),
        }
    }
}

impl Clone for ListNode {
    fn clone(&self) -> (r: Self)
        ensures
            r.view() == self.view(),
        decreases self,
    {
        ListNode { style: self.style.clone(), items: clone_items(&self.items) }
    }
}

impl Clone for ListItem {
    fn clone(&self) -> (r: Self)
        ensures
            r.view() == self.view(),
        decreases self,
    {
        ListItem {
            content: clone_elements(&self.content),
            nested: match &self.nested {
                Some(list) => Some(Box::new((**list).clone())),
                None => None,
            },
        }
    }
}

impl Clone for TableCell {
    fn clone(&self) -> (r: Self)
        ensures
            r.view() == self.view(),
        decreases self,
    {
        TableCell {
            content: clone_elements(&self.content),
            align: self.align,
            colspan: self.colspan,
            rowspan: self.rowspan,
        }
    }
}

impl Clone for TableRow {
    fn clone(&self) -> (r: Self)
        ensures
            r.view() == self.view(),
        decreases self,
    {
        TableRow { cells: clone_cells(&self.cells) }
    }
}

impl Clone for TableNode {
    fn clone(&self) -> (r: Self)
        ensures
            r.view() == self.view(),
        decreases self,
    {
        TableNode {
            headers: clone_cells(&self.headers),
            rows: clone_rows(&self.rows),
            style: self.style,
            rules: clone_rules(&self.rules),
        }
    }
}

impl Clone for Element {
    fn clone(&self) -> (r: Self)
        ensures
            r.view() == self.view(),
        decreases self,
    {
        match self {
            Element::Text(s) => Element::Text(s.clone()),
            Element::Bold(v) => Element::Bold(clone_elements(v)),
            Element::Italic(v) => Element::Italic(clone_elements(v)),
            Element::Code(s) => Element::Code(s.clone()),
            Element::Pre(b) => Element::Pre(b.clone()),
            Element::Underline(v) => Element::Underline(clone_elements(v)),
            Element::Strikethrough(v) => Element::Strikethrough(clone_elements(v)),
            Element::Spoiler(v) => Element::Spoiler(clone_elements(v)),
            Element::Link { text, url } => Element::Link {
                text: clone_elements(text),
                url: url.clone(),
            },
            Element::TextLink { text, url } => Element::TextLink {
                text: text.clone(),
                url: url.clone(),
            },
            Element::Mention { username } => Element::Mention { username: username.clone() },
            Element::MentionId { user_id, text } => Element::MentionId {
                user_id: *user_id,
                text: text.clone(),
            },
            Element::Hashtag(s) => Element::Hashtag(s.clone()),
            Element::Command { name, args } => Element::Command {
                name: name.clone(),
                args: clone_strings(args),
            },
            Element::Emoji(s) => Element::Emoji(s.clone()),
            Element::CustomEmoji { emoji, id } => Element::CustomEmoji {
                emoji: emoji.clone(),
                id: *id,
            },
            Element::List(list) => Element::List(list.clone()),
            Element::Table(table) => Element::Table(table.clone()),
            Element::Quote(v) => Element::Quote(clone_elements(v)),
            Element::Custom { formatter, value } => Element::Custom {
                formatter: formatter.clone(),
                value: value.clone(),
            },
            Element::Group(v) => Element::Group(clone_elements(v)),
        }
    }
}

impl Default for TableCell {
    /// An empty, left-aligned cell that spans one column and one row.
    fn default() -> (cell: Self)
        ensures
            cell.view() == (TableCellView {
                content: Seq::empty(),
                align: CellAlign::Left,
                colspan: 1,
                rowspan: 1,
            }),
    {
        let cell = Self { content: Vec::new(), align: CellAlign::Left, colspan: 1, rowspan: 1 };
        assert(elements_view(cell.content@) =~= Seq::empty());
        cell
    }
}

impl Element {
    pub fn text(s: &str) -> (e: Self)
        ensures
            e.view() == ElementView::Text(s@),
    {
        Element::Text(s.to_owned())
    }

    pub fn bold(elements: Vec<Element>) -> (e: Self)
        ensures
            e.view() == ElementView::Bold(elements_view(elements@)),
    {
        Element::Bold(elements)
    }

    pub fn italic(elements: Vec<Element>) -> (e: Self)
        ensures
            e.view() == ElementView::Italic(elements_view(elements@)),
    {
        Element::Italic(elements)
    }

    pub fn code(s: &str) -> (e: Self)
        ensures
            e.view() == ElementView::Code(s@),
    {
        Element::Code(s.to_owned())
    }

    pub fn pre(code: &str, language: Option<String>) -> (e: Self)
        ensures
            e.view() == ElementView::Pre(
                PreBlockView {
                    code: code@,
                    language: match language {
                        Some(s) => Some(s@),
                        None => None,
                    },
                },
            ),
    {
        Element::Pre(PreBlock { code: code.to_owned(), language })
    }

    pub fn link(text: Vec<Element>, url: &str) -> (e: Self)
        ensures
            e.view() == (ElementView::Link { text: elements_view(text@), url: url@ }),
    {
        Element::Link { text, url: url.to_owned() }
    }

    pub fn text_link(text: &str, url: &str) -> (e: Self)
        ensures
            e.view() == (ElementView::TextLink { text: text@, url: url@ }),
    {
        Element::TextLink { text: text.to_owned(), url: url.to_owned() }
    }

    pub fn mention(username: &str) -> (e: Self)
        ensures
            e.view() == (ElementView::Mention { username: username@ }),
    {
        Element::Mention { username: username.to_owned() }
    }

    pub fn hashtag(tag: &str) -> (e: Self)
        ensures
            e.view() == ElementView::Hashtag(tag@),
    {
        Element::Hashtag(tag.to_owned())
    }

    pub fn group(elements: Vec<Element>) -> (e: Self)
        ensures
            e.view() == ElementView::Group(elements_view(elements@)),
    {
        Element::Group(elements)
    }

    pub fn underline(elements: Vec<Element>) -> (e: Self)
        ensures
            e.view() == ElementView::Underline(elements_view(elements@)),
    {
        Element::Underline(elements)
    }

    pub fn strikethrough(elements: Vec<Element>) -> (e: Self)
        ensures
            e.view() == ElementView::Strikethrough(elements_view(elements@)),
    {
        Element::Strikethrough(elements)
    }

    pub fn spoiler(elements: Vec<Element>) -> (e: Self)
        ensures
            e.view() == ElementView::Spoiler(elements_view(elements@)),
    {
        Element::Spoiler(elements)
    }
}

/// The nodes from `start` on with every group replaced by its nodes, and
/// theirs in turn.
pub open spec fn spliced_from(elements: Seq<ElementView>, start: int) -> Seq<ElementView>
    decreases elements, elements.len() - start,
{
    if 0 <= start < elements.len() {
        (match elements[start] {
            ElementView::Group(children) => spliced_from(children, 0),
            element => seq![element],
        }) + spliced_from(elements, start + 1)
    } else {
        Seq::empty()
    }
}

/// A sequence of nodes with every group replaced by the nodes that it holds.
pub open spec fn spliced(elements: Seq<ElementView>) -> Seq<ElementView> {
    spliced_from(elements, 0)
}

/// Replaces every group in a sequence of nodes by the nodes that it holds, so
/// that no group is left among them.
pub fn flatten(elements: &Vec<Element>) -> (out: Vec<Element>)
    ensures
        elements_view(out@) == spliced(elements_view(elements@)),
    decreases elements,
{
    let ghost views = elements_view(elements@);
    let mut out: Vec<Element> = Vec::new();
    let mut i: usize = 0;
    assert(elements_view(out@) + spliced_from(views, 0) =~= spliced_from(views, 0));
    while i < elements.len()
        invariant
            views == elements_view(elements@),
            i <= elements@.len(),
            spliced_from(views, 0) == elements_view(out@) + spliced_from(views, i as int),
        decreases elements.len() - i,
    {
        let ghost before = elements_view(out@);
        let ghost rest = spliced_from(views, i + 1);
        assert(views[i as int] == elements@[i as int].view());
        match &elements[i] {
            Element::Group(children) => {
                let mut inner = flatten(children);
                let ghost piece = elements_view(inner@);
                out.append(&mut inner);
                assert(elements_view(out@) =~= before + piece);
                assert(before + (piece + rest) =~= (before + piece) + rest);
            },
            element => {
                let copy = element.clone();
                let ghost piece = seq![copy.view()];
                out.push(copy);
                assert(elements_view(out@) =~= before + piece);
                assert(before + (piece + rest) =~= (before + piece) + rest);
            },
        }
        i += 1;
    }
    assert(elements_view(out@) + Seq::<ElementView>::empty() =~= elements_view(out@));
    out
}

} // verus!
