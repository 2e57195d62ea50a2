use yuki::scene::pbrt::lexer::{FileLocation, Lexer, LexerErrorType};
use yuki::scene::pbrt::token::{Token, TokenError};

fn lex_all(input: &[u8]) -> (Vec<Token>, Vec<FileLocation>, LexerErrorType) {
    let mut lexer = Lexer::new(input);
    let (tokens, locations, error) = lexer.read_all();
    (tokens, locations, error.error_type)
}

#[test]
fn lexes_brackets_numbers_and_strings() {
    let (tokens, _, error) = lex_all(b"[ 1 -2.5 \"abc\" ] ");
    assert_eq!(tokens.len(), 5);
    assert!(matches!(tokens[0], Token::LeftBracket));
    assert!(matches!(&tokens[1], Token::Number(t) if t.as_slice() == b"1"));
    assert!(matches!(&tokens[2], Token::Number(t) if t.as_slice() == b"-2.5"));
    assert!(matches!(&tokens[3], Token::String(s) if s.as_slice() == b"abc"));
    assert!(matches!(tokens[4], Token::RightBracket));
    assert!(matches!(error, LexerErrorType::EndOfInput));
}

#[test]
fn lexes_keywords() {
    let (tokens, _, _) = lex_all(b"WorldBegin AttributeBegin Shape \"sphere\"\nAttributeEnd WorldEnd\n");
    assert!(matches!(tokens[0], Token::WorldBegin));
    assert!(matches!(tokens[1], Token::AttributeBegin));
    assert!(matches!(tokens[2], Token::Shape));
    assert!(matches!(&tokens[3], Token::String(s) if s.as_slice() == b"sphere"));
    assert!(matches!(tokens[4], Token::AttributeEnd));
    assert!(matches!(tokens[5], Token::WorldEnd));
    assert_eq!(tokens.len(), 6);
}

#[test]
fn skips_comments() {
    let (tokens, _, error) = lex_all(b"# a comment\nScale 1 2 3 # trailing\n");
    assert_eq!(tokens.len(), 4);
    assert!(matches!(tokens[0], Token::Scale));
    assert!(matches!(error, LexerErrorType::EndOfInput));
}

#[test]
fn word_touching_a_bracket() {
    let (tokens, _, _) = lex_all(b"[1 2] ");
    assert_eq!(tokens.len(), 4);
    assert!(matches!(&tokens[2], Token::Number(t) if t.as_slice() == b"2"));
    assert!(matches!(tokens[3], Token::RightBracket));
}

#[test]
fn word_at_end_of_input_is_a_token() {
    let (tokens, _, error) = lex_all(b"Scale 1 2 3");
    assert_eq!(tokens.len(), 4);
    assert!(matches!(&tokens[3], Token::Number(t) if t.as_slice() == b"3"));
    assert!(matches!(error, LexerErrorType::EndOfInput));
}

#[test]
fn final_keyword_then_end_of_input() {
    let mut lexer = Lexer::new(b"WorldEnd");
    assert!(matches!(lexer.next_token(), Ok(Token::WorldEnd)));
    let e = lexer.next_token().unwrap_err();
    assert!(matches!(e.error_type, LexerErrorType::EndOfInput));
}

#[test]
fn word_touching_delimiters_is_kept() {
    let (tokens, _, _) = lex_all(b"Shape[\"a\"]Translate\"b\" Scale#c\n");
    assert_eq!(tokens.len(), 7);
    assert!(matches!(tokens[0], Token::Shape));
    assert!(matches!(tokens[1], Token::LeftBracket));
    assert!(matches!(&tokens[2], Token::String(s) if s.as_slice() == b"a"));
    assert!(matches!(tokens[3], Token::RightBracket));
    assert!(matches!(tokens[4], Token::Translate));
    assert!(matches!(&tokens[5], Token::String(s) if s.as_slice() == b"b"));
    assert!(matches!(tokens[6], Token::Scale));
}

#[test]
fn columns_after_a_closing_bracket() {
    let (tokens, locations, _) = lex_all(b"[1] 2");
    assert_eq!(tokens.len(), 4);
    assert_eq!((locations[2].line, locations[2].column), (1, 2));
    assert_eq!((locations[3].line, locations[3].column), (1, 4));
}

#[test]
fn error_column_never_wraps() {
    let (_, _, error) = lex_all(b"\"a\\\n");
    assert!(matches!(error, LexerErrorType::UnexpectedEndOfInput));
    let mut lexer = Lexer::new(b"\"a\\\n");
    let e = lexer.next_token().unwrap_err();
    assert_eq!((e.location.line, e.location.column), (2, 0));
}

#[test]
fn escaped_quote_in_string() {
    let (tokens, _, _) = lex_all(b"\"a\\\"b\" ");
    assert!(matches!(&tokens[0], Token::String(s) if s.as_slice() == b"a\\\"b"));
}

#[test]
fn unterminated_string() {
    let (tokens, _, error) = lex_all(b"\"abc\ndef\" ");
    assert_eq!(tokens.len(), 0);
    assert!(matches!(error, LexerErrorType::UnterminatedString));
}

#[test]
fn unexpected_end_of_input_in_string() {
    let (_, _, error) = lex_all(b"\"abc");
    assert!(matches!(error, LexerErrorType::UnexpectedEndOfInput));
}

#[test]
fn invalid_number() {
    let (tokens, _, error) = lex_all(b"Scale 1.2.3 ");
    assert_eq!(tokens.len(), 1);
    assert!(matches!(error, LexerErrorType::InvalidNumber));
}

#[test]
fn unknown_identifier() {
    let (_, _, error) = lex_all(b"Bogus ");
    assert!(matches!(error, LexerErrorType::UnknownIdentifier(i) if i.as_slice() == b"Bogus"));
}

#[test]
fn token_locations() {
    let (_, locations, _) = lex_all(b"Scale\n  1 ");
    assert_eq!(locations.len(), 2);
    assert_eq!((locations[0].line, locations[0].column), (1, 0));
    assert_eq!((locations[1].line, locations[1].column), (2, 2));
}

#[test]
fn previous_token_location_follows_tokens() {
    let input = b"Shape\n \"sphere\" ";
    let mut lexer = Lexer::new(input);
    assert!(matches!(lexer.next_token(), Ok(Token::Shape)));
    let first = lexer.previous_token_location();
    assert_eq!((first.line, first.column), (1, 0));
    assert!(matches!(lexer.next_token(), Ok(Token::String(_))));
    let second = lexer.previous_token_location();
    assert_eq!((second.line, second.column), (2, 1));
}

#[test]
fn stays_at_end_of_input() {
    let mut lexer = Lexer::new(b" ");
    assert!(lexer.next_token().is_err());
    let e = lexer.next_token().unwrap_err();
    assert!(matches!(e.error_type, LexerErrorType::EndOfInput));
}

#[test]
fn token_try_from_words() {
    assert!(matches!(Token::try_from(b"LookAt"), Ok(Token::LookAt)));
    assert!(matches!(Token::try_from(b"Translate"), Ok(Token::Translate)));
    assert!(matches!(Token::try_from(b"1e-3"), Ok(Token::Number(_))));
    assert!(matches!(Token::try_from(b"-.5"), Ok(Token::Number(_))));
    assert!(matches!(Token::try_from(b"1x"), Err(TokenError::InvalidNumber)));
    assert!(matches!(Token::try_from(b"lookat"), Err(TokenError::UnknownIdentifier(w)) if w == b"lookat"));
}
