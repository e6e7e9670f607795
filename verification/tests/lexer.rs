use void::lexer::{is_ident_part, is_ident_start, lex, Token, TokenKind};

fn kinds(tokens: &[Token]) -> Vec<String> {
    tokens
        .iter()
        .map(|t| match &t.kind {
            TokenKind::Ident(s) => format!("ident:{s}"),
            TokenKind::Number(s) => format!("num:{s}"),
            TokenKind::String(s) => format!("str:{s}"),
            TokenKind::Use => "use".to_string(),
            TokenKind::As => "as".to_string(),
            TokenKind::Let => "let".to_string(),
            TokenKind::Fn => "fn".to_string(),
            TokenKind::Return => "return".to_string(),
            TokenKind::If => "if".to_string(),
            TokenKind::Else => "else".to_string(),
            TokenKind::While => "while".to_string(),
            TokenKind::Repeat => "repeat".to_string(),
            TokenKind::True => "true".to_string(),
            TokenKind::False => "false".to_string(),
            TokenKind::Null => "null".to_string(),
            TokenKind::LParen => "(".to_string(),
            TokenKind::RParen => ")".to_string(),
            TokenKind::LBrace => "{".to_string(),
            TokenKind::RBrace => "}".to_string(),
            TokenKind::LBracket => "[".to_string(),
            TokenKind::RBracket => "]".to_string(),
            TokenKind::Comma => ",".to_string(),
            TokenKind::Colon => ":".to_string(),
            TokenKind::Dot => ".".to_string(),
            TokenKind::Plus => "+".to_string(),
            TokenKind::Minus => "-".to_string(),
            TokenKind::Star => "*".to_string(),
            TokenKind::Slash => "/".to_string(),
            TokenKind::Bang => "!".to_string(),
            TokenKind::Equal => "=".to_string(),
            TokenKind::EqualEqual => "==".to_string(),
            TokenKind::BangEqual => "!=".to_string(),
            TokenKind::Less => "<".to_string(),
            TokenKind::LessEqual => "<=".to_string(),
            TokenKind::Greater => ">".to_string(),
            TokenKind::GreaterEqual => ">=".to_string(),
            TokenKind::AndAnd => "&&".to_string(),
            TokenKind::OrOr => "||".to_string(),
            TokenKind::Semicolon => ";".to_string(),
            TokenKind::Eof => "eof".to_string(),
        })
        .collect()
}

#[test]
fn lex_let_statement() {
    let tokens = lex("let x = 12.5 + y").unwrap();
    assert_eq!(kinds(&tokens), vec!["let", "ident:x", "=", "num:12.5", "+", "ident:y", "eof"]);
    assert!(tokens.iter().all(|t| t.line == 1));
}

#[test]
fn lex_keywords_and_operators() {
    let tokens = lex("use as fn return if else while repeat true false null == != <= >= < > && || ! ; : , [ ] ( ) { } . * / -").unwrap();
    assert_eq!(
        kinds(&tokens),
        vec![
            "use", "as", "fn", "return", "if", "else", "while", "repeat", "true", "false", "null",
            "==", "!=", "<=", ">=", "<", ">", "&&", "||", "!", ";", ":", ",", "[", "]", "(", ")",
            "{", "}", ".", "*", "/", "-", "eof"
        ]
    );
}

#[test]
fn lex_newlines_end_statements_and_count_lines() {
    let tokens = lex("a\nb // note\nc").unwrap();
    assert_eq!(kinds(&tokens), vec!["ident:a", ";", "ident:b", ";", "ident:c", "eof"]);
    let lines: Vec<usize> = tokens.iter().map(|t| t.line).collect();
    assert_eq!(lines, vec![1, 1, 2, 2, 3, 3]);
}

#[test]
fn lex_comment_at_end_of_input_has_no_statement_end() {
    let tokens = lex("a // trailing").unwrap();
    assert_eq!(kinds(&tokens), vec!["ident:a", "eof"]);
}

#[test]
fn lex_string_escapes_and_quotes() {
    let tokens = lex(r#""a\n\t\"b" 'c\'d' "\q""#).unwrap();
    assert_eq!(kinds(&tokens), vec!["str:a\n\t\"b", "str:c'd", "str:q", "eof"]);
}

#[test]
fn lex_string_across_lines_takes_the_closing_line() {
    let tokens = lex("\"a\nb\" x").unwrap();
    assert_eq!(kinds(&tokens), vec!["str:a\nb", "ident:x", "eof"]);
    assert_eq!(tokens[0].line, 2);
    assert_eq!(tokens[1].line, 2);
}

#[test]
fn lex_number_with_trailing_dot_is_accepted() {
    let tokens = lex("1.").unwrap();
    assert_eq!(kinds(&tokens), vec!["num:1.", "eof"]);
}

#[test]
fn lex_errors() {
    assert_eq!(lex("a & b").err().unwrap(), "Unexpected character '&' at line 1");
    assert_eq!(lex("a | b").err().unwrap(), "Unexpected character '|' at line 1");
    assert_eq!(lex("\n\"open").err().unwrap(), "Unterminated string at line 2");
    assert_eq!(lex("1.2.3").err().unwrap(), "Invalid number '1.2.3' at line 1");
    assert_eq!(lex("x\n#").err().unwrap(), "Unexpected character '#' at line 2");
}

#[test]
fn lex_empty_input_is_just_eof() {
    let tokens = lex("").unwrap();
    assert_eq!(kinds(&tokens), vec!["eof"]);
    assert_eq!(tokens[0].line, 1);
}

#[test]
fn ident_character_classes() {
    assert!(is_ident_start('a'));
    assert!(is_ident_start('_'));
    assert!(!is_ident_start('1'));
    assert!(is_ident_part('1'));
    assert!(!is_ident_part('-'));
    assert!(!is_ident_start('é'));
}

#[test]
fn stream_ends_with_one_eof_and_lines_only_grow() {
    let tokens = lex("let a = \"x\ny\"\n// note\nsay(a)").unwrap();
    let last = tokens.last().unwrap();
    assert!(matches!(last.kind, TokenKind::Eof));
    assert_eq!(last.line, 4);
    assert_eq!(tokens.iter().filter(|t| matches!(t.kind, TokenKind::Eof)).count(), 1);
    assert!(tokens.iter().all(|t| t.line >= 1));
    assert!(tokens.windows(2).all(|w| w[0].line <= w[1].line));
    assert_eq!(tokens[3].line, 2);
}

#[test]
fn last_line_counts_the_newlines() {
    let plain = "let a = 1\n// c\n\"x\ny\"\n";
    let tokens = lex(plain).unwrap();
    assert_eq!(tokens.last().unwrap().line, 1 + plain.matches('\n').count());
    let escaped = "a\n\"x\\\ny\"";
    let tokens = lex(escaped).unwrap();
    assert_eq!(tokens.last().unwrap().line, 2);
    assert_eq!(escaped.matches('\n').count(), 2);
}
