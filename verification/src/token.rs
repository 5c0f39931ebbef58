//! Tokens, and the lexer that reads them from markup text.

use crate::text::{
    alphanumeric, chars_of, debug_char, debug_text, decimal, push_decimal, quoted_char, quoted_text,
};
use vstd::prelude::*;

verus! {

/// A lexical token of the markup notation.
#[derive(Debug, PartialEq)]
pub enum Token {
    Text(String),
    Bold,
    Italic,
    Code,
    Pre,
    PreLanguage(String),
    Underline,
    Strikethrough,
    Spoiler,
    Link(String),
    Mention(String),
    MentionId(u64),
    Hashtag(String),
    Command(String),
    Emoji(String),
    CustomEmoji(String, u64),
    LineBreak,
    Escape(char),
    LeftParen,
    RightParen,
    LeftBracket,
    RightBracket,
    LeftBrace,
    RightBrace,
    Star,
    Underscore,
    Backtick,
    Tilde,
    Pipe,
    At,
    Hash,
    Slash,
    Eof,
}

/// The mathematical value of a [`Token`]: strings become sequences of characters.
pub enum TokenView {
    Text(Seq<char>),
    Bold,
    Italic,
    Code,
    Pre,
    PreLanguage(Seq<char>),
    Underline,
    Strikethrough,
    Spoiler,
    Link(Seq<char>),
    Mention(Seq<char>),
    MentionId(u64),
    Hashtag(Seq<char>),
    Command(Seq<char>),
    Emoji(Seq<char>),
    CustomEmoji(Seq<char>, u64),
    LineBreak,
    Escape(char),
    LeftParen,
    RightParen,
    LeftBracket,
    RightBracket,
    LeftBrace,
    RightBrace,
    Star,
    Underscore,
    Backtick,
    Tilde,
    Pipe,
    At,
    Hash,
    Slash,
    Eof,
}

impl View for Token {
    type V = TokenView;

    open spec fn view(&self) -> TokenView {
        match self {
            Token::Text(s) => TokenView::Text(s@),
            Token::Bold => TokenView::Bold,
            Token::Italic => TokenView::Italic,
            Token::Code => TokenView::Code,
            Token::Pre => TokenView::Pre,
            Token::PreLanguage(s) => TokenView::PreLanguage(s@),
            Token::Underline => TokenView::Underline,
            Token::Strikethrough => TokenView::Strikethrough,
            Token::Spoiler => TokenView::Spoiler,
            Token::Link(s) => TokenView::Link(s@),
            Token::Mention(s) => TokenView::Mention(s@),
            Token::MentionId(id) => TokenView::MentionId(*id),
            Token::Hashtag(s) => TokenView::Hashtag(s@),
            Token::Command(s) => TokenView::Command(s@),
            Token::Emoji(s) => TokenView::Emoji(s@),
            Token::CustomEmoji(s, id) => TokenView::CustomEmoji(s@, *id),
            Token::LineBreak => TokenView::LineBreak,
            Token::Escape(c) => TokenView::Escape(*c),
            Token::LeftParen => TokenView::LeftParen,
            Token::RightParen => TokenView::RightParen,
            Token::LeftBracket => TokenView::LeftBracket,
            Token::RightBracket => TokenView::RightBracket,
            Token::LeftBrace => TokenView::LeftBrace,
            Token::RightBrace => TokenView::RightBrace,
            Token::Star => TokenView::Star,
            Token::Underscore => TokenView::Underscore,
            Token::Backtick => TokenView::Backtick,
            Token::Tilde => TokenView::Tilde,
            Token::Pipe => TokenView::Pipe,
            Token::At => TokenView::At,
            Token::Hash => TokenView::Hash,
            Token::Slash => TokenView::Slash,
            Token::Eof => TokenView::Eof,
        }
    }
}

impl Clone for Token {
    fn clone(&self) -> (r: Self)
        ensures
            r@ == self@,
    {
        match self {
            Token::Text(s) => Token::Text(s.clone()),
            Token::Bold => Token::Bold,
            Token::Italic => Token::Italic,
            Token::Code => Token::Code,
            Token::Pre => Token::Pre,
            Token::PreLanguage(s) => Token::PreLanguage(s.clone()),
            Token::Underline => Token::Underline,
            Token::Strikethrough => Token::Strikethrough,
            Token::Spoiler => Token::Spoiler,
            Token::Link(s) => Token::Link(s.clone()),
            Token::Mention(s) => Token::Mention(s.clone()),
            Token::MentionId(id) => Token::MentionId(*id),
            Token::Hashtag(s) => Token::Hashtag(s.clone()),
            Token::Command(s) => Token::Command(s.clone()),
            Token::Emoji(s) => Token::Emoji(s.clone()),
            Token::CustomEmoji(s, id) => Token::CustomEmoji(s.clone(), *id),
            Token::LineBreak => Token::LineBreak,
            Token::Escape(c) => Token::Escape(*c),
            Token::LeftParen => Token::LeftParen,
            Token::RightParen => Token::RightParen,
            Token::LeftBracket => Token::LeftBracket,
            Token::RightBracket => Token::RightBracket,
            Token::LeftBrace => Token::LeftBrace,
            Token::RightBrace => Token::RightBrace,
            Token::Star => Token::Star,
            Token::Underscore => Token::Underscore,
            Token::Backtick => Token::Backtick,
            Token::Tilde => Token::Tilde,
            Token::Pipe => Token::Pipe,
            Token::At => Token::At,
            Token::Hash => Token::Hash,
            Token::Slash => Token::Slash,
            Token::Eof => Token::Eof,
        }
    }
}

impl TokenView {
    /// The single-character style delimiters.
    pub open spec fn is_delimiter(self) -> bool {
        self is Star || self is Underscore || self is Backtick || self is Tilde || self is Pipe
    }

    /// The six bracket tokens.
    pub open spec fn is_structural(self) -> bool {
        self is LeftParen || self is RightParen || self is LeftBracket || self is RightBracket
            || self is LeftBrace || self is RightBrace
    }

    /// The token as it is named in a message: the name of its kind and, in
    /// parentheses, what it holds.
    pub open spec fn describe(self) -> Seq<char> {
        match self {
            TokenView::Text(s) => "Text("@ + quoted_text(s) + ")"@,
            TokenView::Bold => "Bold"@,
            TokenView::Italic => "Italic"@,
            TokenView::Code => "Code"@,
            TokenView::Pre => "Pre"@,
            TokenView::PreLanguage(s) => "PreLanguage("@ + quoted_text(s) + ")"@,
            TokenView::Underline => "Underline"@,
            TokenView::Strikethrough => "Strikethrough"@,
            TokenView::Spoiler => "Spoiler"@,
            TokenView::Link(s) => "Link("@ + quoted_text(s) + ")"@,
            TokenView::Mention(s) => "Mention("@ + quoted_text(s) + ")"@,
            TokenView::MentionId(id) => "MentionId("@ + decimal(id as nat) + ")"@,
            TokenView::Hashtag(s) => "Hashtag("@ + quoted_text(s) + ")"@,
            TokenView::Command(s) => "Command("@ + quoted_text(s) + ")"@,
            TokenView::Emoji(s) => "Emoji("@ + quoted_text(s) + ")"@,
            TokenView::CustomEmoji(s, id) => "CustomEmoji("@ + quoted_text(s) + ", "@ + decimal(
                id as nat,
            ) + ")"@,
            TokenView::LineBreak => "LineBreak"@,
            TokenView::Escape(c) => "Escape("@ + quoted_char(c) + ")"@,
            TokenView::LeftParen => "LeftParen"@,
            TokenView::RightParen => "RightParen"@,
            TokenView::LeftBracket => "LeftBracket"@,
            TokenView::RightBracket => "RightBracket"@,
            TokenView::LeftBrace => "LeftBrace"@,
            TokenView::RightBrace => "RightBrace"@,
            TokenView::Star => "Star"@,
            TokenView::Underscore => "Underscore"@,
            TokenView::Backtick => "Backtick"@,
            TokenView::Tilde => "Tilde"@,
            TokenView::Pipe => "Pipe"@,
            TokenView::At => "At"@,
            TokenView::Hash => "Hash"@,
            TokenView::Slash => "Slash"@,
            TokenView::Eof => "Eof"@,
        }
    }
}

impl Token {
    /// The token as it is named in a message.
    pub fn describe(&self) -> (text: String)
        ensures
            text@ == self@.describe(),
    {
        let mut text = String::new();
        match self {
            Token::Text(s) => {
                text.push_str("Text(");
                text.push_str(debug_text(s.as_str()).as_str());
                text.push_str(")");
            },
            Token::Bold => {
                text.push_str("Bold");
            },
            Token::Italic => {
                text.push_str("Italic");
            },
            Token::Code => {
                text.push_str("Code");
            },
            Token::Pre => {
                text.push_str("Pre");
            },
            Token::PreLanguage(s) => {
                text.push_str("PreLanguage(");
                text.push_str(debug_text(s.as_str()).as_str());
                text.push_str(")");
            },
            Token::Underline => {
                text.push_str("Underline");
            },
            Token::Strikethrough => {
                text.push_str("Strikethrough");
            },
            Token::Spoiler => {
                text.push_str("Spoiler");
            },
            Token::Link(s) => {
                text.push_str("Link(");
                text.push_str(debug_text(s.as_str()).as_str());
                text.push_str(")");
            },
            Token::Mention(s) => {
                text.push_str("Mention(");
                text.push_str(debug_text(s.as_str()).as_str());
                text.push_str(")");
            },
            Token::MentionId(id) => {
                text.push_str("MentionId(");
                push_decimal(&mut text, *id);
                text.push_str(")");
            },
            Token::Hashtag(s) => {
                text.push_str("Hashtag(");
                text.push_str(debug_text(s.as_str()).as_str());
                text.push_str(")");
            },
            Token::Command(s) => {
                text.push_str("Command(");
                text.push_str(debug_text(s.as_str()).as_str());
                text.push_str(")");
            },
            Token::Emoji(s) => {
                text.push_str("Emoji(");
                text.push_str(debug_text(s.as_str()).as_str());
                text.push_str(")");
            },
            Token::CustomEmoji(s, id) => {
                text.push_str("CustomEmoji(");
                text.push_str(debug_text(s.as_str()).as_str());
                text.push_str(", ");
                push_decimal(&mut text, *id);
                text.push_str(")");
            },
            Token::LineBreak => {
                text.push_str("LineBreak");
            },
            Token::Escape(c) => {
                text.push_str("Escape(");
                text.push_str(debug_char(*c).as_str());
                text.push_str(")");
            },
            Token::LeftParen => {
                text.push_str("LeftParen");
            },
            Token::RightParen => {
                text.push_str("RightParen");
            },
            Token::LeftBracket => {
                text.push_str("LeftBracket");
            },
            Token::RightBracket => {
                text.push_str("RightBracket");
            },
            Token::LeftBrace => {
                text.push_str("LeftBrace");
            },
            Token::RightBrace => {
                text.push_str("RightBrace");
            },
            Token::Star => {
                text.push_str("Star");
            },
            Token::Underscore => {
                text.push_str("Underscore");
            },
            Token::Backtick => {
                text.push_str("Backtick");
            },
            Token::Tilde => {
                text.push_str("Tilde");
            },
            Token::Pipe => {
                text.push_str("Pipe");
            },
            Token::At => {
                text.push_str("At");
            },
            Token::Hash => {
                text.push_str("Hash");
            },
            Token::Slash => {
                text.push_str("Slash");
            },
            Token::Eof => {
                text.push_str("Eof");
            },
        }
        assert(text@ =~= self@.describe());
        text
    }

    /// Whether two tokens are of the same kind and hold the same values.
    pub fn same(&self, other: &Token) -> (r: bool)
        ensures
            r == (self@ == other@),
    {
        match (self, other) {
            (Token::Text(a), Token::Text(b)) => a.as_str().eq(b.as_str()),
            (Token::Bold, Token::Bold) => true,
            (Token::Italic, Token::Italic) => true,
            (Token::Code, Token::Code) => true,
            (Token::Pre, Token::Pre) => true,
            (Token::PreLanguage(a), Token::PreLanguage(b)) => a.as_str().eq(b.as_str()),
            (Token::Underline, Token::Underline) => true,
            (Token::Strikethrough, Token::Strikethrough) => true,
            (Token::Spoiler, Token::Spoiler) => true,
            (Token::Link(a), Token::Link(b)) => a.as_str().eq(b.as_str()),
            (Token::Mention(a), Token::Mention(b)) => a.as_str().eq(b.as_str()),
            (Token::MentionId(a), Token::MentionId(b)) => *a == *b,
            (Token::Hashtag(a), Token::Hashtag(b)) => a.as_str().eq(b.as_str()),
            (Token::Command(a), Token::Command(b)) => a.as_str().eq(b.as_str()),
            (Token::Emoji(a), Token::Emoji(b)) => a.as_str().eq(b.as_str()),
            (Token::CustomEmoji(a, i), Token::CustomEmoji(b, j)) => a.as_str().eq(b.as_str())
                && *i == *j,
            (Token::LineBreak, Token::LineBreak) => true,
            (Token::Escape(a), Token::Escape(b)) => *a == *b,
            (Token::LeftParen, Token::LeftParen) => true,
            (Token::RightParen, Token::RightParen) => true,
            (Token::LeftBracket, Token::LeftBracket) => true,
            (Token::RightBracket, Token::RightBracket) => true,
            (Token::LeftBrace, Token::LeftBrace) => true,
            (Token::RightBrace, Token::RightBrace) => true,
            (Token::Star, Token::Star) => true,
            (Token::Underscore, Token::Underscore) => true,
            (Token::Backtick, Token::Backtick) => true,
            (Token::Tilde, Token::Tilde) => true,
            (Token::Pipe, Token::Pipe) => true,
            (Token::At, Token::At) => true,
            (Token::Hash, Token::Hash) => true,
            (Token::Slash, Token::Slash) => true,
            (Token::Eof, Token::Eof) => true,
            _ => false,
        }
    }

    pub fn is_delimiter(&self) -> (r: bool)
        ensures
            r == self@.is_delimiter(),
    {
        matches!(self, Token::Star | Token::Underscore | Token::Backtick | Token::Tilde | Token::Pipe)
    }

    pub fn is_structural(&self) -> (r: bool)
        ensures
            r == self@.is_structural(),
    {
        matches!(
            self,
            Token::LeftParen | Token::RightParen | Token::LeftBracket | Token::RightBracket
                | Token::LeftBrace | Token::RightBrace
        )
    }
}

/// The views of a sequence of tokens, position by position.
pub open spec fn token_views(tokens: Seq<Token>) -> Seq<TokenView> {
    Seq::new(tokens.len(), |i: int| tokens[i]@)
}

/// A character that ends a run of plain text.
pub open spec fn reserved(c: char) -> bool {
    c == '*' || c == '_' || c == '`' || c == '~' || c == '|' || c == '@' || c == '#' || c == '/'
        || c == '(' || c == ')' || c == '[' || c == ']' || c == '{' || c == '}' || c == '\\'
        || c == '\n'
}

/// A character that may stand in the name of a mention, hashtag or command.
pub open spec fn name_char(c: char) -> bool {
    alphanumeric(c) || c == '_'
}

/// How many characters from `pos` on are free of reserved characters.
pub open spec fn text_len(input: Seq<char>, pos: int) -> nat
    decreases input.len() - pos,
{
    if 0 <= pos < input.len() && !reserved(input[pos]) {
        1 + text_len(input, pos + 1)
    } else {
        0
    }
}

/// How many characters from `pos` on are name characters.
pub open spec fn name_len(input: Seq<char>, pos: int) -> nat
    decreases input.len() - pos,
{
    if 0 <= pos < input.len() && name_char(input[pos]) {
        1 + name_len(input, pos + 1)
    } else {
        0
    }
}

/// What remains to be read of an input of `len` characters at `pos`.
pub open spec fn unread(len: nat, pos: int) -> nat {
    if 0 <= pos <= len {
        (len - pos) as nat
    } else {
        0
    }
}

/// The token for a trigger character (`@`, `#`, `/`) that no name follows.
pub open spec fn bare_trigger(trigger: char) -> TokenView {
    if trigger == '@' {
        TokenView::At
    } else if trigger == '#' {
        TokenView::Hash
    } else {
        TokenView::Slash
    }
}

/// The token for a trigger character followed by `name`.
pub open spec fn named_entity(trigger: char, name: Seq<char>) -> TokenView {
    if trigger == '@' {
        TokenView::Mention(name)
    } else if trigger == '#' {
        TokenView::Hashtag(name)
    } else {
        TokenView::Command(name)
    }
}

/// The token that starts at `pos`, and the number of characters it spans.
///
/// The name after a trigger character is the longest run of name characters;
/// a backslash takes the next character whatever it is; a run of text is maximal.
pub open spec fn token_at(input: Seq<char>, pos: int) -> (TokenView, nat)
    recommends
        0 <= pos < input.len(),
{
    let c = input[pos];
    if c == '*' {
        (TokenView::Star, 1)
    } else if c == '_' {
        (TokenView::Underscore, 1)
    } else if c == '`' {
        (TokenView::Backtick, 1)
    } else if c == '~' {
        (TokenView::Tilde, 1)
    } else if c == '|' {
        (TokenView::Pipe, 1)
    } else if c == '@' || c == '#' || c == '/' {
        let n = name_len(input, pos + 1);
        if n == 0 {
            (bare_trigger(c), 1)
        } else {
            (named_entity(c, input.subrange(pos + 1, pos + 1 + n)), 1 + n)
        }
    } else if c == '(' {
        (TokenView::LeftParen, 1)
    } else if c == ')' {
        (TokenView::RightParen, 1)
    } else if c == '[' {
        (TokenView::LeftBracket, 1)
    } else if c == ']' {
        (TokenView::RightBracket, 1)
    } else if c == '{' {
        (TokenView::LeftBrace, 1)
    } else if c == '}' {
        (TokenView::RightBrace, 1)
    } else if c == '\\' {
        if pos + 1 < input.len() {
            (TokenView::Escape(input[pos + 1]), 2)
        } else {
            (TokenView::Text(seq!['\\']), 1)
        }
    } else if c == '\n' {
        (TokenView::LineBreak, 1)
    } else {
        let n = 1 + text_len(input, pos + 1);
        (TokenView::Text(input.subrange(pos, pos + n)), n)
    }
}

/// The tokens of `input` from `pos` on; the last one is `Eof`.
pub open spec fn lex_from(input: Seq<char>, pos: int) -> Seq<TokenView>
    decreases unread(input.len(), pos),
{
    if 0 <= pos < input.len() {
        let (token, width) = token_at(input, pos);
        seq![token] + lex_from(input, pos + width)
    } else {
        seq![TokenView::Eof]
    }
}

/// The tokens of a whole input.
pub open spec fn lex(input: Seq<char>) -> Seq<TokenView> {
    lex_from(input, 0)
}

/// A run of text never reaches past the end of the input.
pub proof fn lemma_text_len_bound(input: Seq<char>, pos: int)
    requires
        0 <= pos <= input.len(),
    ensures
        pos + text_len(input, pos) <= input.len(),
    decreases input.len() - pos,
{
    if pos < input.len() && !reserved(input[pos]) {
        lemma_text_len_bound(input, pos + 1);
    }
}

/// A name never reaches past the end of the input.
pub proof fn lemma_name_len_bound(input: Seq<char>, pos: int)
    requires
        0 <= pos <= input.len(),
    ensures
        pos + name_len(input, pos) <= input.len(),
    decreases input.len() - pos,
{
    if pos < input.len() && name_char(input[pos]) {
        lemma_name_len_bound(input, pos + 1);
    }
}

/// A token spans at least one character and ends within the input.
pub proof fn lemma_token_at_bound(input: Seq<char>, pos: int)
    requires
        0 <= pos < input.len(),
    ensures
        1 <= token_at(input, pos).1,
        pos + token_at(input, pos).1 <= input.len(),
{
    lemma_text_len_bound(input, pos + 1);
    lemma_name_len_bound(input, pos + 1);
}

/// Turns markup text into tokens, one character of lookahead at a time.
pub struct Lexer {
    input: Vec<char>,
    position: usize,
}

impl Lexer {
    #[verifier::type_invariant]
    spec fn within(&self) -> bool {
        self.position <= self.input@.len()
    }

    /// The characters that the lexer reads.
    pub closed spec fn input(&self) -> Seq<char> {
        self.input@
    }

    /// The index of the next character to read.
    pub closed spec fn position(&self) -> int {
        self.position as int
    }

    pub fn new(input: &str) -> (lexer: Self)
        ensures
            lexer.input() == input@,
            lexer.position() == 0,
    {
        Self { input: chars_of(input), position: 0 }
    }

    /// All tokens from the current position on, ending in `Eof`.
    pub fn tokenize(&mut self) -> (tokens: Vec<Token>)
        ensures
            token_views(tokens@) == lex_from(old(self).input(), old(self).position()),
            final(self).input() == old(self).input(),
            final(self).position() == old(self).input().len(),
    {
        proof {
            use_type_invariant(&*self);
        }
        let mut tokens: Vec<Token> = Vec::new();
        while !self.is_at_end()
            invariant
                self.input@ == old(self).input@,
                self.position <= self.input@.len(),
                lex_from(old(self).input@, old(self).position as int) == token_views(tokens@)
                    + lex_from(self.input@, self.position as int),
            decreases self.input@.len() - self.position,
        {
            let ghost before = token_views(tokens@);
            let ghost pos = self.position as int;
            proof {
                lemma_token_at_bound(self.input@, pos);
            }
            if let Some(token) = self.next_token() {
                tokens.push(token);
                proof {
                    assert(token_views(tokens@) =~= before + seq![token@]);
                    assert(lex_from(self.input@, pos) == seq![token@] + lex_from(
                        self.input@,
                        self.position as int,
                    ));
                    assert(before + (seq![token@] + lex_from(self.input@, self.position as int))
                        =~= (before + seq![token@]) + lex_from(self.input@, self.position as int));
                }
            }
        }
        let ghost before = token_views(tokens@);
        tokens.push(Token::Eof);
        proof {
            assert(token_views(tokens@) =~= before + seq![TokenView::Eof]);
        }
        tokens
    }

    fn next_token(&mut self) -> (r: Option<Token>)
        ensures
            final(self).input@ == old(self).input@,
            old(self).position >= old(self).input@.len() ==> r is None && final(self).position
                == old(self).position,
            old(self).position < old(self).input@.len() ==> r is Some && (
            r->0@,
            (final(self).position - old(self).position) as nat,
        ) == token_at(old(self).input@, old(self).position as int),
            final(self).position >= old(self).position,
            final(self).position <= final(self).input@.len(),
    {
        proof {
            use_type_invariant(&*self);
        }
        let ch = match self.current_char() {
            Some(ch) => ch,
            None => {
                return None;
            },
        };
        proof {
            lemma_token_at_bound(self.input@, self.position as int);
        }
        match ch {
            '*' => {
                self.advance();
                Some(Token::Star)
            },
            '_' => {
                self.advance();
                Some(Token::Underscore)
            },
            '`' => {
                self.advance();
                Some(Token::Backtick)
            },
            '~' => {
                self.advance();
                Some(Token::Tilde)
            },
            '|' => {
                self.advance();
                Some(Token::Pipe)
            },
            '@' => {
                self.advance();
                if let Some(mention) = self.read_mention() {
                    Some(mention)
                } else {
                    Some(Token::At)
                }
            },
            '#' => {
                self.advance();
                if let Some(hashtag) = self.read_hashtag() {
                    Some(hashtag)
                } else {
                    Some(Token::Hash)
                }
            },
            '/' => {
                self.advance();
                if let Some(command) = self.read_command() {
                    Some(command)
                } else {
                    Some(Token::Slash)
                }
            },
            '(' => {
                self.advance();
                Some(Token::LeftParen)
            },
            ')' => {
                self.advance();
                Some(Token::RightParen)
            },
            '[' => {
                self.advance();
                Some(Token::LeftBracket)
            },
            ']' => {
                self.advance();
                Some(Token::RightBracket)
            },
            '{' => {
                self.advance();
                Some(Token::LeftBrace)
            },
            '}' => {
                self.advance();
                Some(Token::RightBrace)
            },
            '\\' => {
                self.advance();
                if let Some(escaped) = self.current_char() {
                    self.advance();
                    Some(Token::Escape(escaped))
                } else {
                    let mut text = String::new();
                    text.push('\\');
                    assert(text@ =~= seq!['\\']);
                    Some(Token::Text(text))
                }
            },
            '\n' => {
                self.advance();
                Some(Token::LineBreak)
            },
            _ => Some(self.read_text()),
        }
    }

    /// Reads the maximal run of text that starts at the current character.
    fn read_text(&mut self) -> (token: Token)
        requires
            old(self).position < old(self).input@.len(),
            !reserved(old(self).input@[old(self).position as int]),
        ensures
            final(self).input@ == old(self).input@,
            final(self).position <= final(self).input@.len(),
            final(self).position == old(self).position + 1 + text_len(
                old(self).input@,
                old(self).position + 1,
            ),
            token@ == TokenView::Text(
                old(self).input@.subrange(old(self).position as int, final(self).position as int),
            ),
    {
        let mut text = String::new();
        let ghost start = self.position as int;
        loop
            invariant
                self.input@ == old(self).input@,
                start <= self.position <= self.input@.len(),
                start == old(self).position,
                text@ == self.input@.subrange(start, self.position as int),
                text_len(self.input@, start) == (self.position - start) + text_len(
                    self.input@,
                    self.position as int,
                ),
            ensures
                text_len(self.input@, self.position as int) == 0,
            decreases self.input@.len() - self.position,
        {
            let ch = match self.current_char() {
                Some(ch) => ch,
                None => {
                    break ;
                },
            };
            if ch == '*' || ch == '_' || ch == '`' || ch == '~' || ch == '|' || ch == '@' || ch
                == '#' || ch == '/' || ch == '(' || ch == ')' || ch == '[' || ch == ']' || ch
                == '{' || ch == '}' || ch == '\\' || ch == '\n' {
                break ;
            }
            text.push(ch);
            self.advance();
            proof {
                assert(self.input@.subrange(start, self.position as int)
                    =~= self.input@.subrange(start, self.position - 1).push(ch));
            }
        }
        Token::Text(text)
    }

    /// Reads the name that follows a trigger character; empty when there is none.
    fn read_name(&mut self) -> (name: String)
        ensures
            final(self).input@ == old(self).input@,
            final(self).position <= final(self).input@.len(),
            final(self).position == old(self).position + name_len(
                old(self).input@,
                old(self).position as int,
            ),
            name@ == old(self).input@.subrange(
                old(self).position as int,
                final(self).position as int,
            ),
    {
        proof {
            use_type_invariant(&*self);
        }
        let mut name = String::new();
        let ghost start = self.position as int;
        loop
            invariant
                self.input@ == old(self).input@,
                start <= self.position <= self.input@.len(),
                start == old(self).position,
                name@ == self.input@.subrange(start, self.position as int),
                name_len(self.input@, start) == (self.position - start) + name_len(
                    self.input@,
                    self.position as int,
                ),
            ensures
                name_len(self.input@, self.position as int) == 0,
            decreases self.input@.len() - self.position,
        {
            let ch = match self.current_char() {
                Some(ch) => ch,
                None => {
                    break ;
                },
            };
            if ch.is_alphanumeric() || ch == '_' {
                name.push(ch);
                self.advance();
                proof {
                    assert(self.input@.subrange(start, self.position as int)
                        =~= self.input@.subrange(start, self.position - 1).push(ch));
                }
            } else {
                break ;
            }
        }
        name
    }

    fn read_mention(&mut self) -> (r: Option<Token>)
        ensures
            final(self).input@ == old(self).input@,
            final(self).position <= final(self).input@.len(),
            final(self).position == old(self).position + name_len(
                old(self).input@,
                old(self).position as int,
            ),
            r is None <==> final(self).position == old(self).position,
            r matches Some(token) ==> token@ == TokenView::Mention(
                old(self).input@.subrange(old(self).position as int, final(self).position as int),
            ),
    {
        let username = self.read_name();
        if username.as_str().is_empty() {
            None
        } else {
            Some(Token::Mention(username))
        }
    }

    fn read_hashtag(&mut self) -> (r: Option<Token>)
        ensures
            final(self).input@ == old(self).input@,
            final(self).position <= final(self).input@.len(),
            final(self).position == old(self).position + name_len(
                old(self).input@,
                old(self).position as int,
            ),
            r is None <==> final(self).position == old(self).position,
            r matches Some(token) ==> token@ == TokenView::Hashtag(
                old(self).input@.subrange(old(self).position as int, final(self).position as int),
            ),
    {
        let tag = self.read_name();
        if tag.as_str().is_empty() {
            None
        } else {
            Some(Token::Hashtag(tag))
        }
    }

    fn read_command(&mut self) -> (r: Option<Token>)
        ensures
            final(self).input@ == old(self).input@,
            final(self).position <= final(self).input@.len(),
            final(self).position == old(self).position + name_len(
                old(self).input@,
                old(self).position as int,
            ),
            r is None <==> final(self).position == old(self).position,
            r matches Some(token) ==> token@ == TokenView::Command(
                old(self).input@.subrange(old(self).position as int, final(self).position as int),
            ),
    {
        let command = self.read_name();
        if command.as_str().is_empty() {
            None
        } else {
            Some(Token::Command(command))
        }
    }

    fn current_char(&self) -> (r: Option<char>)
        ensures
            r == if self.position < self.input@.len() {
                Some(self.input@[self.position as int])
            } else {
                None
            },
    {
        if self.position < self.input.len() {
            Some(self.input[self.position])
        } else {
            None
        }
    }

    fn advance(&mut self)
        requires
            old(self).position < old(self).input@.len(),
        ensures
            final(self).input@ == old(self).input@,
            final(self).position == old(self).position + 1,
    {
        assert(self.input@.len() <= usize::MAX) by {
            vstd::std_specs::vec::axiom_spec_len(&self.input);
        }
        self.position += 1;
    }

    fn is_at_end(&self) -> (r: bool)
        ensures
            r == (self.position >= self.input@.len()),
    {
        self.position >= self.input.len()
    }
}

} // verus!
