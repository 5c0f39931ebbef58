//! The parser: what a sequence of tokens means as a document, and the
//! recursive descent that builds it.

use crate::ast::{elements_view, Element, ElementView, PreBlock, PreBlockView};
use crate::error::{Error, ErrorView};
use crate::token::{lex, token_views, unread, Lexer, Token, TokenView};
use vstd::prelude::*;

verus! {

/// What ends the content of a construct.
#[derive(Debug, Clone, Copy, PartialEq, Eq, Structural)]
pub enum Closer {
    DoubleStar,
    SingleStar,
    DoubleUnderscore,
    SingleUnderscore,
    DoubleTilde,
    SingleTilde,
    RightBracket,
}

/// The result of parsing from a position: a value and the position after it,
/// or the error that ends the parse.
pub type Parsed<T> = Result<(T, int), ErrorView>;

/// The token at `pos`, if there is one.
pub open spec fn token_or_none(tokens: Seq<TokenView>, pos: int) -> Option<TokenView> {
    if 0 <= pos < tokens.len() {
        Some(tokens[pos])
    } else {
        None
    }
}

/// Whether the token at `pos` is `token`.
pub open spec fn is_at(tokens: Seq<TokenView>, pos: int, token: TokenView) -> bool {
    token_or_none(tokens, pos) == Some(token)
}

/// A position after `pos`: `next` itself wherever parsing moved forward.
pub open spec fn step(pos: int, next: int) -> int {
    if next > pos {
        next
    } else {
        pos + 1
    }
}

impl Closer {
    /// The token that the closer is made of.
    pub open spec fn token(self) -> TokenView {
        match self {
            Closer::DoubleStar | Closer::SingleStar => TokenView::Star,
            Closer::DoubleUnderscore | Closer::SingleUnderscore => TokenView::Underscore,
            Closer::DoubleTilde | Closer::SingleTilde => TokenView::Tilde,
            Closer::RightBracket => TokenView::RightBracket,
        }
    }

    /// Whether the closer is that token twice.
    pub open spec fn doubled(self) -> bool {
        self is DoubleStar || self is DoubleUnderscore || self is DoubleTilde
    }

    /// How many tokens are taken when the closer is met; the bracket is left
    /// for the link that waits for it.
    pub open spec fn width(self) -> int {
        if self.doubled() {
            2
        } else if self is RightBracket {
            0
        } else {
            1
        }
    }

    /// Whether the closer stands at `pos`.
    pub open spec fn closes(self, tokens: Seq<TokenView>, pos: int) -> bool {
        is_at(tokens, pos, self.token()) && (self.doubled() ==> is_at(
            tokens,
            pos + 1,
            self.token(),
        ))
    }

    /// The reason given when the input ends before the closer.
    pub open spec fn unclosed(self) -> Seq<char> {
        match self {
            Closer::DoubleStar => "Unclosed bold"@,
            Closer::SingleStar => "Unclosed italic"@,
            Closer::DoubleUnderscore => "Unclosed underline"@,
            Closer::SingleUnderscore => "Unclosed italic"@,
            Closer::DoubleTilde => "Unclosed strikethrough"@,
            Closer::SingleTilde => "Unclosed spoiler"@,
            Closer::RightBracket => "Unclosed bracket"@,
        }
    }

    /// The node that wraps the content up to the closer. A bracket wraps
    /// nothing by itself: its content becomes the text of a link.
    pub open spec fn wrap(self, content: Seq<ElementView>) -> ElementView {
        match self {
            Closer::DoubleStar => ElementView::Bold(content),
            Closer::SingleStar => ElementView::Italic(content),
            Closer::DoubleUnderscore => ElementView::Underline(content),
            Closer::SingleUnderscore => ElementView::Italic(content),
            Closer::DoubleTilde => ElementView::Strikethrough(content),
            Closer::SingleTilde => ElementView::Spoiler(content),
            Closer::RightBracket => ElementView::Group(content),
        }
    }
}

/// The literal characters that a token stands for inside a URL, if it may
/// stand there.
pub open spec fn url_piece(token: TokenView) -> Option<Seq<char>> {
    match token {
        TokenView::Text(text) => Some(text),
        TokenView::Slash => Some(seq!['/']),
        TokenView::At => Some(seq!['@']),
        TokenView::Hash => Some(seq!['#']),
        TokenView::Underscore => Some(seq!['_']),
        TokenView::Star => Some(seq!['*']),
        TokenView::Tilde => Some(seq!['~']),
        TokenView::Pipe => Some(seq!['|']),
        TokenView::LeftBracket => Some(seq!['[']),
        TokenView::RightBracket => Some(seq![']']),
        TokenView::LeftBrace => Some(seq!['{']),
        TokenView::RightBrace => Some(seq!['}']),
        TokenView::Command(name) => Some(seq!['/'] + name),
        TokenView::Mention(name) => Some(seq!['@'] + name),
        TokenView::Hashtag(tag) => Some(seq!['#'] + tag),
        _ => None,
    }
}

/// The URL from `pos` to the closing parenthesis, which is taken.
pub open spec fn url_from(tokens: Seq<TokenView>, pos: int) -> Parsed<Seq<char>>
    decreases unread(tokens.len(), pos),
{
    match token_or_none(tokens, pos) {
        Some(TokenView::RightParen) => Ok((Seq::empty(), pos + 1)),
        Some(token) => match url_piece(token) {
            Some(piece) => match url_from(tokens, pos + 1) {
                Ok((rest, next)) => Ok((piece + rest, next)),
                Err(e) => Err(e),
            },
            None => Err(ErrorView::Parse("Unclosed link"@)),
        },
        None => Err(ErrorView::Parse("Unclosed link"@)),
    }
}

/// Inline code from `pos` to the closing backtick, which is taken: only text
/// may stand in between.
pub open spec fn code_from(tokens: Seq<TokenView>, pos: int) -> Parsed<Seq<char>>
    decreases unread(tokens.len(), pos),
{
    match token_or_none(tokens, pos) {
        Some(TokenView::Backtick) => Ok((Seq::empty(), pos + 1)),
        Some(TokenView::Text(text)) => match code_from(tokens, pos + 1) {
            Ok((rest, next)) => Ok((text + rest, next)),
            Err(e) => Err(e),
        },
        _ => Err(ErrorView::Parse("Unclosed code block"@)),
    }
}

/// `count` backticks.
pub open spec fn backticks(count: nat) -> Seq<char> {
    Seq::new(count, |i: int| '`')
}

/// The content of a block from `pos` to three backticks in a row, which are
/// taken and are no part of the content; `pending` backticks (fewer than
/// three) stand just before `pos`. Backticks that something else follows are
/// content; a token that is neither text, line break nor backtick is dropped.
pub open spec fn pre_from(tokens: Seq<TokenView>, pos: int, pending: nat) -> Parsed<Seq<char>>
    decreases unread(tokens.len(), pos),
{
    match token_or_none(tokens, pos) {
        None => Err(ErrorView::Parse("Unclosed pre block"@)),
        Some(TokenView::Backtick) => if pending >= 2 {
            Ok((Seq::empty(), pos + 1))
        } else {
            pre_from(tokens, pos + 1, pending + 1)
        },
        Some(token) => {
            let piece = match token {
                TokenView::Text(text) => text,
                TokenView::LineBreak => seq!['\n'],
                _ => Seq::empty(),
            };
            match pre_from(tokens, pos + 1, 0) {
                Ok((rest, next)) => Ok((backticks(pending) + piece + rest, next)),
                Err(e) => Err(e),
            }
        },
    }
}

/// A block after its three opening backticks: a text token right after them
/// is the language, and one line break after the language is skipped.
pub open spec fn pre_block(tokens: Seq<TokenView>, pos: int) -> Parsed<ElementView> {
    let (language, start) = match token_or_none(tokens, pos) {
        Some(TokenView::Text(lang)) => (
            Some(lang),
            if is_at(tokens, pos + 1, TokenView::LineBreak) {
                pos + 2
            } else {
                pos + 1
            },
        ),
        _ => (None, pos),
    };
    match pre_from(tokens, start, 0) {
        Ok((code, next)) => Ok((ElementView::Pre(PreBlockView { code, language }), next)),
        Err(e) => Err(e),
    }
}

/// Code or a block, from the backtick at `pos`: three backticks open a block,
/// two are empty code, one opens inline code.
pub open spec fn code_or_pre(tokens: Seq<TokenView>, pos: int) -> Parsed<ElementView> {
    if is_at(tokens, pos + 1, TokenView::Backtick) {
        if is_at(tokens, pos + 2, TokenView::Backtick) {
            pre_block(tokens, pos + 3)
        } else {
            Ok((ElementView::Code(Seq::empty()), pos + 2))
        }
    } else {
        match code_from(tokens, pos + 1) {
            Ok((code, next)) => Ok((ElementView::Code(code), next)),
            Err(e) => Err(e),
        }
    }
}

/// The reason given when another token stands where `expected` must.
pub open spec fn mismatch(expected: TokenView, found: TokenView) -> Seq<char> {
    "Expected "@ + expected.describe() + ", found "@ + found.describe()
}

/// What follows the text of a link, from the closing bracket at `pos`: an
/// opening parenthesis and the URL.
pub open spec fn link_tail(tokens: Seq<TokenView>, pos: int) -> Parsed<Seq<char>> {
    match token_or_none(tokens, pos + 1) {
        Some(TokenView::LeftParen) => url_from(tokens, pos + 2),
        Some(found) => Err(ErrorView::Parse(mismatch(TokenView::LeftParen, found))),
        None => Err(ErrorView::UnexpectedEof),
    }
}

/// The node that starts at `pos`, and the position after it.
///
/// A delimiter that its own kind follows at once opens the strong style, else
/// the weak one; the content of a style, and the text of a link, is parsed
/// node by node up to the closer.
pub open spec fn element_at(tokens: Seq<TokenView>, pos: int) -> Parsed<ElementView>
    decreases unread(tokens.len(), pos), 1int,
{
    match token_or_none(tokens, pos) {
        Some(TokenView::Star) => styled(tokens, pos, Closer::DoubleStar, Closer::SingleStar),
        Some(TokenView::Underscore) => styled(
            tokens,
            pos,
            Closer::DoubleUnderscore,
            Closer::SingleUnderscore,
        ),
        Some(TokenView::Tilde) => styled(tokens, pos, Closer::DoubleTilde, Closer::SingleTilde),
        Some(TokenView::Backtick) => code_or_pre(tokens, pos),
        Some(TokenView::LeftBracket) => match content_until(
            tokens,
            pos + 1,
            Closer::RightBracket,
        ) {
            Ok((text, bracket)) => match link_tail(tokens, bracket) {
                Ok((url, next)) => Ok((ElementView::Link { text, url }, next)),
                Err(e) => Err(e),
            },
            Err(e) => Err(e),
        },
        Some(TokenView::Mention(username)) => Ok((ElementView::Mention { username }, pos + 1)),
        Some(TokenView::Hashtag(tag)) => Ok((ElementView::Hashtag(tag), pos + 1)),
        Some(TokenView::Command(name)) => Ok(
            (ElementView::Command { name, args: Seq::empty() }, pos + 1),
        ),
        Some(TokenView::Text(text)) => Ok((ElementView::Text(text), pos + 1)),
        Some(TokenView::Escape(c)) => Ok((ElementView::Text(seq![c]), pos + 1)),
        Some(TokenView::LineBreak) => Ok((ElementView::Text(seq!['\n']), pos + 1)),
        Some(_) => Ok((ElementView::Text(Seq::empty()), pos + 1)),
        None => Ok((ElementView::Text(Seq::empty()), pos)),
    }
}

/// A styled node from the delimiter at `pos`: the strong style where the
/// delimiter is doubled, else the weak one.
pub open spec fn styled(tokens: Seq<TokenView>, pos: int, strong: Closer, weak: Closer) -> Parsed<
    ElementView,
>
    recommends
        0 <= pos < tokens.len(),
    decreases unread(tokens.len(), pos), 0int,
    when 0 <= pos < tokens.len()
{
    let (closer, start) = if is_at(tokens, pos + 1, tokens[pos]) {
        (strong, pos + 2)
    } else {
        (weak, pos + 1)
    };
    match content_until(tokens, start, closer) {
        Ok((content, next)) => Ok((closer.wrap(content), next)),
        Err(e) => Err(e),
    }
}

/// The nodes from `pos` up to `closer`, and the position after the closer.
pub open spec fn content_until(tokens: Seq<TokenView>, pos: int, closer: Closer) -> Parsed<
    Seq<ElementView>,
>
    decreases unread(tokens.len(), pos), 2int,
{
    if !(0 <= pos < tokens.len()) {
        Err(ErrorView::Parse(closer.unclosed()))
    } else if closer.closes(tokens, pos) {
        Ok((Seq::empty(), pos + closer.width()))
    } else {
        match element_at(tokens, pos) {
            Ok((element, next)) => match content_until(tokens, step(pos, next), closer) {
                Ok((rest, end)) => Ok((seq![element] + rest, end)),
                Err(e) => Err(e),
            },
            Err(e) => Err(e),
        }
    }
}

/// Whether nothing but the end of input is left at `pos`.
pub open spec fn at_end(tokens: Seq<TokenView>, pos: int) -> bool {
    match token_or_none(tokens, pos) {
        None | Some(TokenView::Eof) => true,
        _ => false,
    }
}

/// The nodes from `pos` to the end of input.
pub open spec fn document_from(tokens: Seq<TokenView>, pos: int) -> Result<
    Seq<ElementView>,
    ErrorView,
>
    decreases unread(tokens.len(), pos),
{
    if at_end(tokens, pos) {
        Ok(Seq::empty())
    } else {
        match element_at(tokens, pos) {
            Ok((element, next)) => match document_from(tokens, step(pos, next)) {
                Ok(rest) => Ok(seq![element] + rest),
                Err(e) => Err(e),
            },
            Err(e) => Err(e),
        }
    }
}

/// The document that a text stands for.
pub open spec fn parse_spec(input: Seq<char>) -> Result<Seq<ElementView>, ErrorView> {
    document_from(lex(input), 0)
}

/// `prefix` put before what was parsed.
pub open spec fn prepend<T>(prefix: Seq<T>, parsed: Parsed<Seq<T>>) -> Parsed<Seq<T>> {
    match parsed {
        Ok((rest, next)) => Ok((prefix + rest, next)),
        Err(e) => Err(e),
    }
}

/// The view of what `peek` hands out.
pub open spec fn seen(token: Option<&Token>) -> Option<TokenView> {
    match token {
        Some(t) => Some(t@),
        None => None,
    }
}

/// Whether the outcome `r`, with the cursor at `cursor` afterwards, is what
/// `parsed` says.
pub open spec fn element_outcome(
    r: Result<Element, Error>,
    cursor: int,
    parsed: Parsed<ElementView>,
) -> bool {
    match parsed {
        Ok((element, next)) => r is Ok && r->Ok_0.view() == element && cursor == next,
        Err(e) => r is Err && r->Err_0@ == e,
    }
}

/// The view of the outcome of parsing a document.
pub open spec fn document_view(r: Result<Vec<Element>, Error>) -> Result<
    Seq<ElementView>,
    ErrorView,
> {
    match r {
        Ok(elements) => Ok(elements_view(elements@)),
        Err(e) => Err(e@),
    }
}

/// A type that can be read from a stream of tokens.
pub trait Parse: Sized {
    fn parse(input: ParseStream) -> Result<Self, Error>;
}

/// A cursor over a slice of tokens.
pub struct ParseStream<'a> {
    tokens: &'a [Token],
    cursor: usize,
}

impl<'a> ParseStream<'a> {
    /// The tokens of the stream, by their views.
    pub closed spec fn tokens(&self) -> Seq<TokenView> {
        token_views(self.tokens@)
    }

    /// The index of the next token.
    pub closed spec fn cursor(&self) -> int {
        self.cursor as int
    }

    pub fn new(tokens: &'a [Token]) -> (stream: Self)
        ensures
            stream.tokens() == token_views(tokens@),
            stream.cursor() == 0,
    {
        Self { tokens, cursor: 0 }
    }

    /// The next token, which stays in the stream.
    pub fn peek(&self) -> (r: Option<&Token>)
        ensures
            seen(r) == token_or_none(self.tokens(), self.cursor()),
    {
        if self.cursor < self.tokens.len() {
            Some(&self.tokens[self.cursor])
        } else {
            None
        }
    }

    /// The token `n` places after the next one.
    pub fn peek_ahead(&self, n: usize) -> (r: Option<&Token>)
        ensures
            seen(r) == token_or_none(self.tokens(), self.cursor() + n),
    {
        assert(self.tokens@.len() <= usize::MAX) by {
            vstd::slice::axiom_spec_len(self.tokens);
        }
        match self.cursor.checked_add(n) {
            Some(index) => {
                if index < self.tokens.len() {
                    Some(&self.tokens[index])
                } else {
                    None
                }
            },
            None => None,
        }
    }

    /// Takes the next token, if there is one.
    pub fn advance(&mut self) -> (r: Option<Token>)
        ensures
            final(self).tokens() == old(self).tokens(),
            match token_or_none(old(self).tokens(), old(self).cursor()) {
                Some(token) => r is Some && r->0@ == token && final(self).cursor() == old(self).cursor() + 1,
                None => r is None && final(self).cursor() == old(self).cursor(),
            },
    {
        if self.cursor < self.tokens.len() {
            let token = self.tokens[self.cursor].clone();
            self.cursor += 1;
            Some(token)
        } else {
            None
        }
    }

    /// Takes the next token and checks that it is `expected`.
    pub fn consume(&mut self, expected: &Token) -> (r: Result<(), Error>)
        ensures
            final(self).tokens() == old(self).tokens(),
            match token_or_none(old(self).tokens(), old(self).cursor()) {
                Some(token) => {
                    &&& final(self).cursor() == old(self).cursor() + 1
                    &&& token == expected@ ==> r is Ok
                    &&& token != expected@ ==> r is Err && r->Err_0@ == ErrorView::Parse(
                        mismatch(expected@, token),
                    )
                },
                None => {
                    &&& final(self).cursor() == old(self).cursor()
                    &&& r is Err
                    &&& r->Err_0@ == ErrorView::UnexpectedEof
                },
            },
    {
        match self.advance() {
            Some(token) => {
                if token.same(expected) {
                    Ok(())
                } else {
                    let mut message = "Expected ".to_owned();
                    message.push_str(expected.describe().as_str());
                    message.push_str(", found ");
                    message.push_str(token.describe().as_str());
                    Err(Error::Parse(message))
                }
            },
            None => Err(Error::UnexpectedEof),
        }
    }

    /// Whether nothing but the end of input is left.
    pub fn is_at_end(&self) -> (r: bool)
        ensures
            r == at_end(self.tokens(), self.cursor()),
    {
        match self.peek() {
            None => true,
            Some(Token::Eof) => true,
            Some(_) => false,
        }
    }

    /// Reads a `T` from a copy of the stream, which itself stays where it is.
    pub fn parse<T: Parse>(&mut self) -> (r: Result<T, Error>)
        ensures
            *final(self) == *old(self),
            call_ensures(T::parse, (*old(self),), r),
    {
        T::parse(ParseStream { tokens: self.tokens, cursor: self.cursor })
    }
}

/// Parses markup text into the nodes of a document.
#[verifier::loop_isolation(false)]
pub fn parse(input: &str) -> (r: Result<Vec<Element>, Error>)
    ensures
        document_view(r) == parse_spec(input@),
{
    let mut lexer = Lexer::new(input);
    let tokens = lexer.tokenize();
    let mut stream = ParseStream::new(tokens.as_slice());
    let mut elements: Vec<Element> = Vec::new();
    let ghost all = stream.tokens();
    while !stream.is_at_end()
        invariant
            stream.tokens() == all,
            0 <= stream.cursor(),
            match document_from(all, stream.cursor()) {
                Ok(rest) => document_from(all, 0) == Ok::<Seq<ElementView>, ErrorView>(
                    elements_view(elements@) + rest,
                ),
                Err(e) => document_from(all, 0) == Err::<Seq<ElementView>, ErrorView>(e),
            },
        decreases unread(all.len(), stream.cursor()),
    {
        let ghost before = elements_view(elements@);
        let ghost pos = stream.cursor();
        match parse_element(&mut stream) {
            Ok(element) => {
                elements.push(element);
                proof {
                    assert(elements_view(elements@) =~= before + seq![element.view()]);
                    match document_from(all, stream.cursor()) {
                        Ok(rest) => {
                            assert(before + (seq![element.view()] + rest) =~= (before
                                + seq![element.view()]) + rest);
                        },
                        Err(e) => {},
                    }
                }
            },
            Err(e) => {
                return Err(e);
            },
        }
    }
    proof {
        assert(elements_view(elements@) + Seq::<ElementView>::empty() =~= elements_view(
            elements@,
        ));
    }
    Ok(elements)
}

fn parse_element(stream: &mut ParseStream) -> (r: Result<Element, Error>)
    requires
        0 <= old(stream).cursor(),
    ensures
        final(stream).tokens() == old(stream).tokens(),
        element_outcome(
            r,
            final(stream).cursor(),
            element_at(old(stream).tokens(), old(stream).cursor()),
        ),
        r is Ok && old(stream).cursor() < old(stream).tokens().len() ==> final(stream).cursor()
            > old(stream).cursor(),
    decreases unread(old(stream).tokens().len(), old(stream).cursor()), 1int,
{
    let token = match stream.peek() {
        Some(t) => Some(t.clone()),
        None => None,
    };
    match token {
        Some(Token::Star) => parse_bold_or_italic(stream),
        Some(Token::Underscore) => parse_italic_or_underline(stream),
        Some(Token::Backtick) => parse_code_or_pre(stream),
        Some(Token::Tilde) => parse_strikethrough_or_spoiler(stream),
        Some(Token::LeftBracket) => parse_link(stream),
        Some(Token::Mention(username)) => {
            stream.advance();
            Ok(Element::Mention { username })
        },
        Some(Token::Hashtag(tag)) => {
            stream.advance();
            Ok(Element::Hashtag(tag))
        },
        Some(Token::Command(cmd)) => {
            stream.advance();
            let element = Element::Command { name: cmd, args: Vec::new() };
            assert(crate::text::string_views(Seq::<String>::empty()) =~= Seq::empty());
            Ok(element)
        },
        Some(Token::Text(text)) => {
            stream.advance();
            Ok(Element::Text(text))
        },
        Some(Token::Escape(ch)) => {
            stream.advance();
            let mut text = String::new();
            text.push(ch);
            assert(text@ =~= seq![ch]);
            Ok(Element::Text(text))
        },
        Some(Token::LineBreak) => {
            stream.advance();
            let mut text = String::new();
            text.push('\n');
            assert(text@ =~= seq!['\n']);
            Ok(Element::Text(text))
        },
        _ => {
            stream.advance();
            Ok(Element::Text(String::new()))
        },
    }
}

/// Takes the delimiter that the caller has seen, and a second one if it
/// follows at once; says whether it did.
fn open_style(stream: &mut ParseStream) -> (doubled: bool)
    requires
        0 <= old(stream).cursor() < old(stream).tokens().len(),
    ensures
        final(stream).tokens() == old(stream).tokens(),
        doubled == is_at(
            old(stream).tokens(),
            old(stream).cursor() + 1,
            old(stream).tokens()[old(stream).cursor()],
        ),
        final(stream).cursor() == old(stream).cursor() + if doubled {
            2int
        } else {
            1int
        },
{
    let first = stream.advance();
    let doubled = match (&first, stream.peek()) {
        (Some(a), Some(b)) => a.same(b),
        _ => false,
    };
    if doubled {
        stream.advance();
    }
    doubled
}

fn parse_bold_or_italic(stream: &mut ParseStream) -> (r: Result<Element, Error>)
    requires
        is_at(old(stream).tokens(), old(stream).cursor(), TokenView::Star),
    ensures
        final(stream).tokens() == old(stream).tokens(),
        element_outcome(
            r,
            final(stream).cursor(),
            styled(
                old(stream).tokens(),
                old(stream).cursor(),
                Closer::DoubleStar,
                Closer::SingleStar,
            ),
        ),
        r is Ok ==> final(stream).cursor() > old(stream).cursor(),
    decreases unread(old(stream).tokens().len(), old(stream).cursor()), 0int,
{
    if open_style(stream) {
        match parse_until(stream, Closer::DoubleStar) {
            Ok(content) => Ok(Element::Bold(content)),
            Err(e) => Err(e),
        }
    } else {
        match parse_until(stream, Closer::SingleStar) {
            Ok(content) => Ok(Element::Italic(content)),
            Err(e) => Err(e),
        }
    }
}

fn parse_italic_or_underline(stream: &mut ParseStream) -> (r: Result<Element, Error>)
    requires
        is_at(old(stream).tokens(), old(stream).cursor(), TokenView::Underscore),
    ensures
        final(stream).tokens() == old(stream).tokens(),
        element_outcome(
            r,
            final(stream).cursor(),
            styled(
                old(stream).tokens(),
                old(stream).cursor(),
                Closer::DoubleUnderscore,
                Closer::SingleUnderscore,
            ),
        ),
        r is Ok ==> final(stream).cursor() > old(stream).cursor(),
    decreases unread(old(stream).tokens().len(), old(stream).cursor()), 0int,
{
    if open_style(stream) {
        match parse_until(stream, Closer::DoubleUnderscore) {
            Ok(content) => Ok(Element::Underline(content)),
            Err(e) => Err(e),
        }
    } else {
        match parse_until(stream, Closer::SingleUnderscore) {
            Ok(content) => Ok(Element::Italic(content)),
            Err(e) => Err(e),
        }
    }
}

fn parse_strikethrough_or_spoiler(stream: &mut ParseStream) -> (r: Result<Element, Error>)
    requires
        is_at(old(stream).tokens(), old(stream).cursor(), TokenView::Tilde),
    ensures
        final(stream).tokens() == old(stream).tokens(),
        element_outcome(
            r,
            final(stream).cursor(),
            styled(
                old(stream).tokens(),
                old(stream).cursor(),
                Closer::DoubleTilde,
                Closer::SingleTilde,
            ),
        ),
        r is Ok ==> final(stream).cursor() > old(stream).cursor(),
    decreases unread(old(stream).tokens().len(), old(stream).cursor()), 0int,
{
    if open_style(stream) {
        match parse_until(stream, Closer::DoubleTilde) {
            Ok(content) => Ok(Element::Strikethrough(content)),
            Err(e) => Err(e),
        }
    } else {
        match parse_until(stream, Closer::SingleTilde) {
            Ok(content) => Ok(Element::Spoiler(content)),
            Err(e) => Err(e),
        }
    }
}

#[verifier::loop_isolation(false)]
fn parse_code_or_pre(stream: &mut ParseStream) -> (r: Result<Element, Error>)
    requires
        is_at(old(stream).tokens(), old(stream).cursor(), TokenView::Backtick),
    ensures
        final(stream).tokens() == old(stream).tokens(),
        element_outcome(
            r,
            final(stream).cursor(),
            code_or_pre(old(stream).tokens(), old(stream).cursor()),
        ),
        r is Ok ==> final(stream).cursor() > old(stream).cursor(),
{
    let ghost tokens = stream.tokens();
    stream.advance();
    if matches!(stream.peek(), Some(Token::Backtick)) {
        stream.advance();
        if matches!(stream.peek(), Some(Token::Backtick)) {
            stream.advance();
            parse_pre_block(stream)
        } else {
            Ok(Element::Code(String::new()))
        }
    } else {
        let mut code = String::new();
        let ghost start = stream.cursor();
        loop
            invariant
                stream.tokens() == tokens,
                start <= stream.cursor(),
                code_from(tokens, start) == prepend(code@, code_from(tokens, stream.cursor())),
            decreases unread(tokens.len(), stream.cursor()),
        {
            let ghost so_far = code@;
            match stream.peek() {
                Some(Token::Backtick) => {
                    stream.advance();
                    assert(so_far + Seq::<char>::empty() =~= so_far);
                    return Ok(Element::Code(code));
                },
                Some(Token::Text(text)) => {
                    code.push_str(text.as_str());
                    stream.advance();
                    proof {
                        match code_from(tokens, stream.cursor()) {
                            Ok((rest, next)) => {
                                assert(so_far + (text@ + rest) =~= (so_far + text@) + rest);
                            },
                            Err(e) => {},
                        }
                    }
                },
                _ => {
                    break ;
                },
            }
        }
        Err(Error::Parse("Unclosed code block".to_owned()))
    }
}

#[verifier::loop_isolation(false)]
fn parse_pre_block(stream: &mut ParseStream) -> (r: Result<Element, Error>)
    requires
        0 <= old(stream).cursor(),
    ensures
        final(stream).tokens() == old(stream).tokens(),
        element_outcome(
            r,
            final(stream).cursor(),
            pre_block(old(stream).tokens(), old(stream).cursor()),
        ),
        r is Ok ==> final(stream).cursor() > old(stream).cursor(),
{
    let ghost tokens = stream.tokens();
    let language = match stream.peek() {
        Some(Token::Text(lang)) => Some(lang.clone()),
        _ => None,
    };
    if language.is_some() {
        stream.advance();
        if matches!(stream.peek(), Some(Token::LineBreak)) {
            stream.advance();
        }
    }
    let mut code = String::new();
    let mut pending: usize = 0;
    let ghost start = stream.cursor();
    loop
        invariant
            stream.tokens() == tokens,
            start <= stream.cursor(),
            pending <= 2,
            pre_from(tokens, start, 0) == prepend(
                code@,
                pre_from(tokens, stream.cursor(), pending as nat),
            ),
        decreases unread(tokens.len(), stream.cursor()),
    {
        let ghost so_far = code@;
        let ghost held = pending as nat;
        let ghost piece = match token_or_none(tokens, stream.cursor()) {
            Some(TokenView::Text(text)) => text,
            Some(TokenView::LineBreak) => seq!['\n'],
            _ => Seq::empty(),
        };
        match stream.peek() {
            None => {
                break ;
            },
            Some(Token::Backtick) => {
                stream.advance();
                if pending == 2 {
                    assert(so_far + Seq::<char>::empty() =~= so_far);
                    return Ok(Element::Pre(PreBlock { code, language }));
                }
                pending += 1;
            },
            Some(token) => {
                if pending >= 1 {
                    code.push('`');
                }
                if pending == 2 {
                    code.push('`');
                }
                assert(code@ =~= so_far + backticks(held));
                match token {
                    Token::Text(text) => {
                        code.push_str(text.as_str());
                    },
                    Token::LineBreak => {
                        code.push('\n');
                    },
                    _ => {},
                }
                assert(code@ =~= so_far + backticks(held) + piece);
                stream.advance();
                pending = 0;
                proof {
                    match pre_from(tokens, stream.cursor(), 0) {
                        Ok((rest, next)) => {
                            assert(so_far + (backticks(held) + piece + rest) =~= (so_far
                                + backticks(held) + piece) + rest);
                        },
                        Err(e) => {},
                    }
                }
            },
        }
    }
    Err(Error::Parse("Unclosed pre block".to_owned()))
}

#[verifier::loop_isolation(false)]
fn parse_link(stream: &mut ParseStream) -> (r: Result<Element, Error>)
    requires
        is_at(old(stream).tokens(), old(stream).cursor(), TokenView::LeftBracket),
    ensures
        final(stream).tokens() == old(stream).tokens(),
        element_outcome(
            r,
            final(stream).cursor(),
            element_at(old(stream).tokens(), old(stream).cursor()),
        ),
        r is Ok ==> final(stream).cursor() > old(stream).cursor(),
    decreases unread(old(stream).tokens().len(), old(stream).cursor()), 0int,
{
    let ghost tokens = stream.tokens();
    stream.advance();
    let text = match parse_until(stream, Closer::RightBracket) {
        Ok(text) => text,
        Err(e) => {
            return Err(e);
        },
    };
    let ghost bracket = stream.cursor();
    stream.advance();
    match stream.consume(&Token::LeftParen) {
        Ok(()) => {},
        Err(e) => {
            return Err(e);
        },
    }
    let mut url = String::new();
    let ghost start = stream.cursor();
    loop
        invariant
            stream.tokens() == tokens,
            start <= stream.cursor(),
            url_from(tokens, start) == prepend(url@, url_from(tokens, stream.cursor())),
        decreases unread(tokens.len(), stream.cursor()),
    {
        let ghost so_far = url@;
        let ghost piece = match token_or_none(tokens, stream.cursor()) {
            Some(token) => match url_piece(token) {
                Some(piece) => piece,
                None => Seq::empty(),
            },
            None => Seq::empty(),
        };
        match stream.peek() {
            Some(Token::RightParen) => {
                stream.advance();
                assert(so_far + Seq::<char>::empty() =~= so_far);
                return Ok(Element::Link { text, url });
            },
            Some(Token::Text(text)) => {
                url.push_str(text.as_str());
            },
            Some(Token::Slash) => {
                url.push('/');
            },
            Some(Token::At) => {
                url.push('@');
            },
            Some(Token::Hash) => {
                url.push('#');
            },
            Some(Token::Underscore) => {
                url.push('_');
            },
            Some(Token::Star) => {
                url.push('*');
            },
            Some(Token::Tilde) => {
                url.push('~');
            },
            Some(Token::Pipe) => {
                url.push('|');
            },
            Some(Token::LeftBracket) => {
                url.push('[');
            },
            Some(Token::RightBracket) => {
                url.push(']');
            },
            Some(Token::LeftBrace) => {
                url.push('{');
            },
            Some(Token::RightBrace) => {
                url.push('}');
            },
            Some(Token::Command(cmd)) => {
                url.push('/');
                url.push_str(cmd.as_str());
            },
            Some(Token::Mention(name)) => {
                url.push('@');
                url.push_str(name.as_str());
            },
            Some(Token::Hashtag(tag)) => {
                url.push('#');
                url.push_str(tag.as_str());
            },
            _ => {
                break ;
            },
        }
        assert(url@ =~= so_far + piece);
        stream.advance();
        proof {
            match url_from(tokens, stream.cursor()) {
                Ok((rest, next)) => {
                    assert(so_far + (piece + rest) =~= (so_far + piece) + rest);
                },
                Err(e) => {},
            }
        }
    }
    Err(Error::Parse("Unclosed link".to_owned()))
}

/// Whether `closer` stands at the cursor.
fn at_closer(stream: &ParseStream, closer: Closer) -> (r: bool)
    ensures
        r == closer.closes(stream.tokens(), stream.cursor()),
{
    match closer {
        Closer::DoubleStar => matches!(stream.peek(), Some(Token::Star)) && matches!(
            stream.peek_ahead(1),
            Some(Token::Star)
        ),
        Closer::SingleStar => matches!(stream.peek(), Some(Token::Star)),
        Closer::DoubleUnderscore => matches!(stream.peek(), Some(Token::Underscore)) && matches!(
            stream.peek_ahead(1),
            Some(Token::Underscore)
        ),
        Closer::SingleUnderscore => matches!(stream.peek(), Some(Token::Underscore)),
        Closer::DoubleTilde => matches!(stream.peek(), Some(Token::Tilde)) && matches!(
            stream.peek_ahead(1),
            Some(Token::Tilde)
        ),
        Closer::SingleTilde => matches!(stream.peek(), Some(Token::Tilde)),
        Closer::RightBracket => matches!(stream.peek(), Some(Token::RightBracket)),
    }
}

/// The error for input that ends before `closer`.
fn unclosed_error(closer: Closer) -> (e: Error)
    ensures
        e@ == ErrorView::Parse(closer.unclosed()),
{
    match closer {
        Closer::DoubleStar => Error::Parse("Unclosed bold".to_owned()),
        Closer::SingleStar => Error::Parse("Unclosed italic".to_owned()),
        Closer::DoubleUnderscore => Error::Parse("Unclosed underline".to_owned()),
        Closer::SingleUnderscore => Error::Parse("Unclosed italic".to_owned()),
        Closer::DoubleTilde => Error::Parse("Unclosed strikethrough".to_owned()),
        Closer::SingleTilde => Error::Parse("Unclosed spoiler".to_owned()),
        Closer::RightBracket => Error::Parse("Unclosed bracket".to_owned()),
    }
}

/// Parses nodes up to `closer`, which is taken (a closing bracket is left).
#[verifier::loop_isolation(false)]
fn parse_until(stream: &mut ParseStream, closer: Closer) -> (r: Result<Vec<Element>, Error>)
    requires
        0 <= old(stream).cursor(),
    ensures
        final(stream).tokens() == old(stream).tokens(),
        match content_until(old(stream).tokens(), old(stream).cursor(), closer) {
            Ok((content, next)) => r is Ok && elements_view(r->Ok_0@) == content && final(stream).cursor() == next && next >= old(stream).cursor() && closer.closes(
                old(stream).tokens(),
                next - closer.width(),
            ),
            Err(e) => r is Err && r->Err_0@ == e,
        },
    decreases unread(old(stream).tokens().len(), old(stream).cursor()), 2int,
{
    let ghost tokens = stream.tokens();
    let ghost start = stream.cursor();
    let mut elements: Vec<Element> = Vec::new();
    assert(elements_view(elements@) =~= Seq::empty());
    loop
        invariant
            stream.tokens() == tokens,
            start <= stream.cursor(),
            tokens == old(stream).tokens(),
            start == old(stream).cursor(),
            content_until(tokens, start, closer) == prepend(
                elements_view(elements@),
                content_until(tokens, stream.cursor(), closer),
            ),
        decreases unread(tokens.len(), stream.cursor()),
    {
        let ghost before = elements_view(elements@);
        if stream.peek().is_none() {
            break ;
        }
        if at_closer(stream, closer) {
            match closer {
                Closer::DoubleStar | Closer::DoubleUnderscore | Closer::DoubleTilde => {
                    stream.advance();
                    stream.advance();
                },
                Closer::SingleStar | Closer::SingleUnderscore | Closer::SingleTilde => {
                    stream.advance();
                },
                Closer::RightBracket => {},
            }
            assert(before + Seq::<ElementView>::empty() =~= before);
            return Ok(elements);
        }
        match parse_element(stream) {
            Ok(element) => {
                elements.push(element);
                proof {
                    assert(elements_view(elements@) =~= before + seq![element.view()]);
                    match content_until(tokens, stream.cursor(), closer) {
                        Ok((rest, end)) => {
                            assert(before + (seq![element.view()] + rest) =~= (before
                                + seq![element.view()]) + rest);
                        },
                        Err(e) => {},
                    }
                }
            },
            Err(e) => {
                return Err(e);
            },
        }
    }
    Err(unclosed_error(closer))
}

} // verus!
