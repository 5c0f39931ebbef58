use msg::error::Error;
use msg::parser::{Parse, ParseStream};
use msg::token::Token;

fn sample() -> Vec<Token> {
    vec![Token::Star, Token::Text("a".to_string()), Token::Eof]
}

#[test]
fn peek_leaves_the_token_in_place() {
    let tokens = sample();
    let stream = ParseStream::new(&tokens);
    assert_eq!(stream.peek(), Some(&Token::Star));
    assert_eq!(stream.peek(), Some(&Token::Star));
}

#[test]
fn peek_ahead_looks_past_the_cursor() {
    let tokens = sample();
    let stream = ParseStream::new(&tokens);
    assert_eq!(stream.peek_ahead(0), Some(&Token::Star));
    assert_eq!(stream.peek_ahead(1), Some(&Token::Text("a".to_string())));
    assert_eq!(stream.peek_ahead(2), Some(&Token::Eof));
    assert_eq!(stream.peek_ahead(3), None);
    assert_eq!(stream.peek_ahead(usize::MAX), None);
}

#[test]
fn peek_ahead_beyond_every_index_is_none() {
    let tokens = sample();
    let mut stream = ParseStream::new(&tokens);
    stream.advance();
    assert_eq!(stream.peek_ahead(usize::MAX), None);
}

#[test]
fn advance_hands_out_tokens_in_order_and_then_nothing() {
    let tokens = sample();
    let mut stream = ParseStream::new(&tokens);
    assert_eq!(stream.advance(), Some(Token::Star));
    assert_eq!(stream.advance(), Some(Token::Text("a".to_string())));
    assert_eq!(stream.advance(), Some(Token::Eof));
    assert_eq!(stream.advance(), None);
    assert_eq!(stream.advance(), None);
    assert_eq!(stream.peek(), None);
}

#[test]
fn consume_accepts_the_expected_token() {
    let tokens = sample();
    let mut stream = ParseStream::new(&tokens);
    assert!(stream.consume(&Token::Star).is_ok());
    assert_eq!(stream.peek(), Some(&Token::Text("a".to_string())));
}

#[test]
fn consume_names_both_tokens_when_they_differ() {
    let tokens = sample();
    let mut stream = ParseStream::new(&tokens);
    match stream.consume(&Token::LeftParen) {
        Err(Error::Parse(reason)) => assert_eq!(reason, "Expected LeftParen, found Star"),
        other => panic!("unexpected outcome: {:?}", other),
    }
    assert_eq!(stream.peek(), Some(&Token::Text("a".to_string())));
}

#[test]
fn consume_shows_the_text_of_a_token() {
    let tokens = vec![Token::Text("x\"y".to_string())];
    let mut stream = ParseStream::new(&tokens);
    match stream.consume(&Token::Eof) {
        Err(Error::Parse(reason)) => assert_eq!(reason, "Expected Eof, found Text(\"x\\\"y\")"),
        other => panic!("unexpected outcome: {:?}", other),
    }
}

#[test]
fn consume_at_the_end_is_unexpected_eof() {
    let tokens: Vec<Token> = Vec::new();
    let mut stream = ParseStream::new(&tokens);
    assert!(matches!(stream.consume(&Token::Star), Err(Error::UnexpectedEof)));
}

#[test]
fn is_at_end_at_eof_token_and_past_the_tokens() {
    let tokens = sample();
    let mut stream = ParseStream::new(&tokens);
    assert!(!stream.is_at_end());
    stream.advance();
    assert!(!stream.is_at_end());
    stream.advance();
    assert!(stream.is_at_end());
    stream.advance();
    assert!(stream.is_at_end());
}

struct Count(usize);

impl Parse for Count {
    fn parse(mut input: ParseStream) -> Result<Self, Error> {
        let mut n = 0;
        while input.advance().is_some() {
            n += 1;
        }
        Ok(Count(n))
    }
}

#[test]
fn parse_reads_from_a_copy_of_the_stream() {
    let tokens = sample();
    let mut stream = ParseStream::new(&tokens);
    stream.advance();
    let count: Count = stream.parse().unwrap();
    assert_eq!(count.0, 2);
    assert_eq!(stream.peek(), Some(&Token::Text("a".to_string())));
}
