use redislight::scanner::{Scanner, Token, TokenKind};

fn kinds(line: &str) -> Vec<(TokenKind, usize, usize)> {
    let source = line.to_string();
    let mut scanner = Scanner::new(&source);
    let mut out = Vec::new();
    loop {
        let t = scanner.scan_token();
        out.push((t.kind, t.start, t.end));
        if t.kind == TokenKind::TOKEN_EOC {
            return out;
        }
        if t.kind == TokenKind::TOKEN_ERROR && t.start == t.end {
            scanner.advance();
        }
    }
}

#[test]
fn scan_keywords_identifiers_numbers() {
    assert_eq!(
        kinds("SET key1 12.5 EX 3"),
        vec![
            (TokenKind::TOKEN_SET, 0, 3),
            (TokenKind::TOKEN_IDENTIFIER, 4, 8),
            (TokenKind::TOKEN_NUMBER, 9, 13),
            (TokenKind::TOKEN_EX, 14, 16),
            (TokenKind::TOKEN_NUMBER, 17, 18),
            (TokenKind::TOKEN_EOC, 18, 18),
        ]
    );
}

#[test]
fn scan_keyword_prefix_is_identifier() {
    assert_eq!(
        kinds("SETX get"),
        vec![
            (TokenKind::TOKEN_IDENTIFIER, 0, 4),
            (TokenKind::TOKEN_IDENTIFIER, 5, 8),
            (TokenKind::TOKEN_EOC, 8, 8),
        ]
    );
}

#[test]
fn scan_string_pipe_comment_and_error() {
    assert_eq!(
        kinds("\"a b\" | // note\n# 1."),
        vec![
            (TokenKind::TOKEN_STRING, 0, 5),
            (TokenKind::TOKEN_PIPE, 6, 7),
            (TokenKind::TOKEN_ERROR, 16, 16),
            (TokenKind::TOKEN_NUMBER, 18, 19),
            (TokenKind::TOKEN_ERROR, 19, 19),
            (TokenKind::TOKEN_EOC, 20, 20),
        ]
    );
}

#[test]
fn scan_unterminated_string() {
    assert_eq!(
        kinds("\"open"),
        vec![(TokenKind::TOKEN_ERROR, 0, 5), (TokenKind::TOKEN_EOC, 5, 5)]
    );
}

#[test]
fn scanner_cursor_moves() {
    let source = "ab".to_string();
    let mut s = Scanner::new(&source);
    assert_eq!(s.peek(), Some('a'));
    assert_eq!(s.peek_next(), Some('b'));
    assert!(s.expect('b'));
    assert!(!s.expect('x'));
    assert!(!s.is_at_peek_next_end());
    s.advance();
    assert_eq!(s.peek(), Some('b'));
    assert_eq!(s.peek_next(), None);
    assert!(s.is_at_peek_next_end());
    s.advance();
    assert!(s.is_at_end());
    s.advance();
    assert_eq!(s.current, 3);
    assert_eq!(s.peek(), None);
    assert_eq!(s.peek_next(), None);
    assert!(s.expect('z'));
    let t = s.scan_token();
    assert_eq!(t.kind, TokenKind::TOKEN_EOC);
    assert_eq!(t.message, "EOF");
    assert_eq!((t.start, t.end), (3, 3));
}

#[test]
fn scanner_error_messages() {
    let source = "#".to_string();
    let mut s = Scanner::new(&source);
    let t = s.scan_token();
    assert_eq!(t.kind, TokenKind::TOKEN_ERROR);
    assert_eq!(t.message, "Unexpected character.");
    assert_eq!(s.current, 0);

    let source = "\"open\nmore".to_string();
    let mut s = Scanner::new(&source);
    let t = s.scan_token();
    assert_eq!(t.kind, TokenKind::TOKEN_ERROR);
    assert_eq!(t.message, "Unterminated string.");
    assert_eq!(t.line, 2);
    assert_eq!(s.current, 10);
}

#[test]
fn scanner_counts_lines_in_comments_and_strings() {
    let source = "// note\n\"a\nb\" x".to_string();
    let mut s = Scanner::new(&source);
    let t = s.scan_token();
    assert_eq!(t.kind, TokenKind::TOKEN_STRING);
    assert_eq!(t.message, "");
    assert_eq!((t.start, t.end, t.line), (8, 13, 3));
    let t = s.scan_token();
    assert_eq!(t.kind, TokenKind::TOKEN_IDENTIFIER);
    assert_eq!(t.line, 3);
}

#[test]
fn scanner_lines_and_keywords() {
    let source = "\n\n  LRANGE".to_string();
    let mut s = Scanner::new(&source);
    let t = s.scan_token();
    assert_eq!(t, Token::new(TokenKind::TOKEN_LRANGE, 4, 10, 3, ""));
    assert_eq!(s.identifier_type(), TokenKind::TOKEN_LRANGE);
    assert_eq!(s.check_keyword(1, 5, "RANGE", TokenKind::TOKEN_LRANGE), TokenKind::TOKEN_LRANGE);
    assert_eq!(s.check_keyword(1, 4, "RANG", TokenKind::TOKEN_LRANGE), TokenKind::TOKEN_IDENTIFIER);
}
