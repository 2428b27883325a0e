use proc_macro2::TokenStream;
use typed_builder_macro::token::{accepts_identifier, copy_tokens, read_stream};
use typed_builder_macro::{Delimiter, Spacing, Token};

fn stream(text: &str) -> TokenStream {
    text.parse().unwrap()
}

#[test]
fn read_stream_keeps_order_and_kinds() {
    let tokens = read_stream(&stream("name = (a, b) 7"));
    assert_eq!(tokens.len(), 4);
    assert!(matches!(&tokens[0], Token::Ident(ident) if ident.name == "name"));
    assert!(tokens[1].is_punct('='));
    assert!(matches!(&tokens[2], Token::Group { delimiter: Delimiter::Parenthesis, .. }));
    assert!(matches!(&tokens[3], Token::Literal { text, .. } if text == "7"));
}

#[test]
fn read_stream_leaves_the_inside_of_a_group_unread() {
    let tokens = read_stream(&stream("[a, b] {c}"));
    assert_eq!(tokens.len(), 2);
    match &tokens[0] {
        Token::Group { delimiter, stream, .. } => {
            assert_eq!(*delimiter, Delimiter::Bracket);
            let inner = read_stream(stream);
            assert_eq!(inner.len(), 3);
            assert!(inner[1].is_punct(','));
        }
        other => panic!("not a group: {:?}", other),
    }
    assert!(matches!(&tokens[1], Token::Group { delimiter: Delimiter::Brace, .. }));
}

#[test]
fn read_stream_of_nothing_is_empty() {
    assert!(read_stream(&TokenStream::new()).is_empty());
}

#[test]
fn read_stream_tells_glued_punctuation() {
    let tokens = read_stream(&stream("a == b"));
    assert_eq!(tokens.len(), 4);
    assert!(matches!(&tokens[1], Token::Punct { ch: '=', spacing: Spacing::Joint, .. }));
    assert!(matches!(&tokens[2], Token::Punct { ch: '=', spacing: Spacing::Alone, .. }));
}

#[test]
fn read_stream_keeps_raw_identifiers_as_written() {
    let tokens = read_stream(&stream("r#type"));
    assert!(matches!(&tokens[0], Token::Ident(ident) if ident.name == "r#type"));
}

#[test]
fn read_stream_reports_where_each_token_stands() {
    let tokens = read_stream(&stream("ab  cd"));
    assert_eq!(tokens[0].span().start().column, 0);
    assert_eq!(tokens[1].span().start().column, 4);
}

#[test]
fn identifiers_exclude_keywords_and_the_underscore() {
    assert!(accepts_identifier("foo"));
    assert!(accepts_identifier("_foo"));
    assert!(accepts_identifier("r#fn"));
    assert!(accepts_identifier("requires"));
    assert!(!accepts_identifier("fn"));
    assert!(!accepts_identifier("self"));
    assert!(!accepts_identifier("_"));
    assert!(!accepts_identifier("a b"));
    assert!(!accepts_identifier("1a"));
    assert!(!accepts_identifier(""));
}

#[test]
fn copy_tokens_takes_the_range() {
    let tokens = read_stream(&stream("a b c d"));
    let middle = copy_tokens(&tokens, 1, 3);
    assert_eq!(middle.len(), 2);
    assert!(matches!(&middle[0], Token::Ident(ident) if ident.name == "b"));
    assert!(matches!(&middle[1], Token::Ident(ident) if ident.name == "c"));
    assert!(copy_tokens(&tokens, 2, 2).is_empty());
}

#[test]
fn has_text_compares_the_text() {
    let tokens = read_stream(&stream("mutator r#mutator"));
    match (&tokens[0], &tokens[1]) {
        (Token::Ident(plain), Token::Ident(raw)) => {
            assert!(plain.has_text("mutator"));
            assert!(!plain.has_text("mutato"));
            assert!(!raw.has_text("mutator"));
            assert!(raw.has_text("r#mutator"));
        }
        _ => panic!("two identifiers expected"),
    }
}

#[test]
fn a_token_knows_its_punctuation() {
    let tokens = read_stream(&stream("! x"));
    assert!(tokens[0].is_punct('!'));
    assert!(!tokens[0].is_punct(','));
    assert!(!tokens[1].is_punct('x'));
}
