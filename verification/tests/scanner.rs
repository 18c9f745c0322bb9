use rs_lisp::lexer::{Lexer, LexerError, Token};

fn all_tokens(src: &str) -> (Vec<Token>, Option<LexerError>) {
    let mut lexer = Lexer::new(src);
    let mut tokens: Vec<Token> = Vec::new();
    loop {
        match lexer.next_token() {
            Ok(Some(t)) => tokens.push(t),
            Ok(None) => return (tokens, None),
            Err(e) => return (tokens, Some(e)),
        }
    }
}

#[test]
fn scan_balanced_expression() {
    let (tokens, err) = all_tokens("(+ 1 2)");
    assert!(err.is_none());
    assert_eq!(tokens.len(), 5);
    assert!(matches!(tokens[0], Token::LParen(0, 1)));
    assert!(matches!(&tokens[1], Token::Symbol(s) if s == "+"));
    assert!(matches!(tokens[2], Token::Integer(1)));
    assert!(matches!(tokens[3], Token::Integer(2)));
    assert!(matches!(tokens[4], Token::RParen(0, 7)));
}

#[test]
fn scan_unbalanced_input_reports_unmatched_paren() {
    let (tokens, err) = all_tokens("(1 2");
    assert_eq!(tokens.len(), 3);
    assert!(matches!(tokens[0], Token::LParen(_, _)));
    assert!(matches!(tokens[1], Token::Integer(1)));
    assert!(matches!(tokens[2], Token::Integer(2)));
    assert!(matches!(err, Some(LexerError::UnmatchedParen)));
}

#[test]
fn scan_second_dot_is_unexpected_char() {
    // the malformed numeral yields no token: the scan fails at the second dot
    let (tokens, err) = all_tokens("1.2.3");
    assert_eq!(tokens.len(), 0);
    assert!(matches!(err, Some(LexerError::UnexpectedChar('.', 0, 3))));
}

#[test]
fn scan_extra_closing_paren_is_unmatched() {
    let (_, err) = all_tokens(")");
    assert!(matches!(err, Some(LexerError::UnmatchedParen)));
}

#[test]
fn scan_negative_numbers_and_bare_signs() {
    let (tokens, err) = all_tokens("-4 +5 - +");
    assert!(err.is_none());
    assert!(matches!(tokens[0], Token::Integer(-4)));
    assert!(matches!(tokens[1], Token::Integer(5)));
    assert!(matches!(&tokens[2], Token::Symbol(s) if s == "-"));
    assert!(matches!(&tokens[3], Token::Symbol(s) if s == "+"));
}

#[test]
fn scan_string_literal() {
    let (tokens, err) = all_tokens("\"hello world\"");
    assert!(err.is_none());
    assert!(matches!(&tokens[0], Token::StringLiteral(s) if s == "hello world"));
}

#[test]
fn scan_unterminated_string_is_eof() {
    let (_, err) = all_tokens("\"oops");
    assert!(matches!(err, Some(LexerError::UnexpectedEof)));
}

#[test]
fn scan_newline_inside_string_is_eof() {
    let (_, err) = all_tokens("\"a\nb\"");
    assert!(matches!(err, Some(LexerError::UnexpectedEof)));
}

#[test]
fn scan_comment_runs_to_end_of_line() {
    let (tokens, err) = all_tokens("; note\n7");
    assert!(err.is_none());
    assert!(matches!(&tokens[0], Token::Comment(s) if s == " note\n"));
    assert!(matches!(tokens[1], Token::Integer(7)));
}

#[test]
fn scan_tracks_lines_and_offsets() {
    let mut lexer = Lexer::new("(\n  (");
    assert!(matches!(lexer.next_token(), Ok(Some(Token::LParen(0, 1)))));
    assert!(matches!(lexer.next_token(), Ok(Some(Token::LParen(1, 3)))));
    let (line, col) = lexer.get_position();
    assert_eq!(line, 1);
    assert_eq!(col, 3);
}

#[test]
fn scan_huge_numeral_is_rejected() {
    let (_, err) = all_tokens("99999999999999999999");
    assert!(matches!(err, Some(LexerError::UnexpectedChar(_, _, _))));
}

#[test]
fn scan_decimal_without_fraction() {
    let (tokens, err) = all_tokens("1.");
    assert!(err.is_none());
    match &tokens[0] {
        Token::Float(q) => {
            assert_eq!(q.num(), 1);
            assert_eq!(q.den(), 1);
        }
        other => panic!("expected a float token, got {:?}", other),
    }
}

#[test]
fn scan_unexpected_character() {
    let (_, err) = all_tokens("@");
    assert!(matches!(err, Some(LexerError::UnexpectedChar('@', 0, 0))));
}

#[test]
fn symbol_character_classes() {
    assert!(rs_lisp::lexer::is_symbol_start('a'));
    assert!(rs_lisp::lexer::is_symbol_start('='));
    assert!(!rs_lisp::lexer::is_symbol_start('3'));
    assert!(!rs_lisp::lexer::is_symbol_start('('));
    assert!(rs_lisp::lexer::is_symbol_part('3'));
    assert!(rs_lisp::lexer::is_symbol_part('z'));
    assert!(!rs_lisp::lexer::is_symbol_part(' '));
    // the classes are the Unicode ones, not merely the basic letters
    assert!(rs_lisp::lexer::is_symbol_start('\u{e9}'));
    assert!(rs_lisp::lexer::is_symbol_part('\u{e9}'));
}

#[test]
fn scan_unicode_letters_and_whitespace() {
    let (tokens, err) = all_tokens("h\u{e9}llo");
    assert!(err.is_none());
    assert!(matches!(&tokens[0], Token::Symbol(s) if s == "h\u{e9}llo"));
    let (tokens2, err2) = all_tokens("1\u{a0}2");
    assert!(err2.is_none());
    assert!(matches!(tokens2[0], Token::Integer(1)));
    assert!(matches!(tokens2[1], Token::Integer(2)));
}
