use msg::token::{Lexer, Token};

fn tokens_of(input: &str) -> Vec<Token> {
    Lexer::new(input).tokenize()
}

fn text(s: &str) -> Token {
    Token::Text(s.to_string())
}

#[test]
fn empty_input_is_only_eof() {
    assert_eq!(tokens_of(""), vec![Token::Eof]);
}

#[test]
fn every_delimiter_and_bracket_is_one_token() {
    assert_eq!(
        tokens_of("*_`~|()[]{}"),
        vec![
            Token::Star,
            Token::Underscore,
            Token::Backtick,
            Token::Tilde,
            Token::Pipe,
            Token::LeftParen,
            Token::RightParen,
            Token::LeftBracket,
            Token::RightBracket,
            Token::LeftBrace,
            Token::RightBrace,
            Token::Eof,
        ]
    );
}

#[test]
fn trigger_without_name_is_punctuation() {
    assert_eq!(
        tokens_of("@ # / @"),
        vec![
            Token::At,
            text(" "),
            Token::Hash,
            text(" "),
            Token::Slash,
            text(" "),
            Token::At,
            Token::Eof,
        ]
    );
}

#[test]
fn command_takes_the_longest_name() {
    assert_eq!(
        tokens_of("/start_now now"),
        vec![Token::Command("start_now".to_string()), text(" now"), Token::Eof]
    );
}

#[test]
fn names_may_hold_letters_of_any_script_and_digits() {
    assert_eq!(
        tokens_of("@Жук_42!"),
        vec![Token::Mention("Жук_42".to_string()), text("!"), Token::Eof]
    );
}

#[test]
fn slash_inside_a_word_starts_a_command() {
    assert_eq!(
        tokens_of("a/b"),
        vec![text("a"), Token::Command("b".to_string()), Token::Eof]
    );
}

#[test]
fn backslash_takes_the_next_character_whatever_it_is() {
    assert_eq!(
        tokens_of("\\a\\\\\\\n"),
        vec![Token::Escape('a'), Token::Escape('\\'), Token::Escape('\n'), Token::Eof]
    );
}

#[test]
fn trailing_backslash_is_text() {
    assert_eq!(tokens_of("a\\"), vec![text("a"), text("\\"), Token::Eof]);
}

#[test]
fn line_feed_is_a_token_of_its_own() {
    assert_eq!(
        tokens_of("a\nb\r\n"),
        vec![text("a"), Token::LineBreak, text("b\r"), Token::LineBreak, Token::Eof]
    );
}

#[test]
fn text_runs_are_maximal() {
    assert_eq!(
        tokens_of("one two, three. four!"),
        vec![text("one two, three. four!"), Token::Eof]
    );
}

#[test]
fn eof_is_last_and_unique() {
    let tokens = tokens_of("**a** @b #c /d [e](f) `g` \\h\n~i~");
    assert_eq!(tokens.last(), Some(&Token::Eof));
    assert_eq!(tokens.iter().filter(|t| **t == Token::Eof).count(), 1);
}

#[test]
fn tokenizing_again_gives_only_eof() {
    let mut lexer = Lexer::new("abc");
    assert_eq!(lexer.tokenize(), vec![text("abc"), Token::Eof]);
    assert_eq!(lexer.tokenize(), vec![Token::Eof]);
}

#[test]
fn delimiter_and_structural_tokens_are_told_apart() {
    assert!(Token::Star.is_delimiter());
    assert!(Token::Underscore.is_delimiter());
    assert!(Token::Backtick.is_delimiter());
    assert!(Token::Tilde.is_delimiter());
    assert!(Token::Pipe.is_delimiter());
    assert!(!Token::At.is_delimiter());
    assert!(!Token::LeftParen.is_delimiter());
    assert!(!text("*").is_delimiter());
    assert!(Token::LeftParen.is_structural());
    assert!(Token::RightParen.is_structural());
    assert!(Token::LeftBracket.is_structural());
    assert!(Token::RightBracket.is_structural());
    assert!(Token::LeftBrace.is_structural());
    assert!(Token::RightBrace.is_structural());
    assert!(!Token::Star.is_structural());
    assert!(!Token::Eof.is_structural());
}

#[test]
fn same_compares_kind_and_value() {
    assert!(text("a").same(&text("a")));
    assert!(!text("a").same(&text("b")));
    assert!(!text("a").same(&Token::Mention("a".to_string())));
    assert!(Token::Escape('x').same(&Token::Escape('x')));
    assert!(!Token::Escape('x').same(&Token::Escape('y')));
    assert!(Token::CustomEmoji("e".to_string(), 7).same(&Token::CustomEmoji("e".to_string(), 7)));
    assert!(!Token::CustomEmoji("e".to_string(), 7).same(&Token::CustomEmoji("e".to_string(), 8)));
    assert!(Token::Eof.same(&Token::Eof));
    assert!(!Token::Eof.same(&Token::Star));
}

#[test]
fn clone_keeps_the_token() {
    let token = Token::Hashtag("rust".to_string());
    assert_eq!(token.clone(), token);
}

#[test]
fn describe_is_the_debug_text() {
    let tokens = vec![
        Token::Text("a \"b\" \\ \n 'c' é \u{301}".to_string()),
        Token::Bold,
        Token::Italic,
        Token::Code,
        Token::Pre,
        Token::PreLanguage("rust".to_string()),
        Token::Underline,
        Token::Strikethrough,
        Token::Spoiler,
        Token::Link("l".to_string()),
        Token::Mention("m".to_string()),
        Token::MentionId(0),
        Token::MentionId(u64::MAX),
        Token::Hashtag("h".to_string()),
        Token::Command("c".to_string()),
        Token::Emoji("🙂".to_string()),
        Token::CustomEmoji("e".to_string(), 42),
        Token::LineBreak,
        Token::Escape('x'),
        Token::Escape('\''),
        Token::Escape('"'),
        Token::Escape('\n'),
        Token::LeftParen,
        Token::RightParen,
        Token::LeftBracket,
        Token::RightBracket,
        Token::LeftBrace,
        Token::RightBrace,
        Token::Star,
        Token::Underscore,
        Token::Backtick,
        Token::Tilde,
        Token::Pipe,
        Token::At,
        Token::Hash,
        Token::Slash,
        Token::Eof,
    ];
    for token in tokens {
        assert_eq!(token.describe(), format!("{:?}", token));
    }
}
