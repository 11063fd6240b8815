use tinyscript::lex;
use tinyscript::lexer::{Token, TokenKind};

fn kinds_and_texts(tokens: &[Token]) -> Vec<(TokenKind, String)> {
    tokens
        .iter()
        .map(|t| (t.kind, t.text.iter().collect::<String>()))
        .collect()
}

#[test]
fn second_dot_ends_a_number() {
    let tokens = lex("1.2.3").unwrap();
    assert_eq!(
        kinds_and_texts(&tokens),
        vec![
            (TokenKind::Float, "1.2".to_string()),
            (TokenKind::Dot, ".".to_string()),
            (TokenKind::Integer, "3".to_string()),
            (TokenKind::Eof, "EOF".to_string()),
        ]
    );
}

#[test]
fn identifier_comparison_and_escaped_string() {
    let tokens = lex("a_1 == \"x\\n\"").unwrap();
    assert_eq!(
        kinds_and_texts(&tokens),
        vec![
            (TokenKind::Identifier, "a_1".to_string()),
            (TokenKind::Eq, "==".to_string()),
            (TokenKind::Str, "x\n".to_string()),
            (TokenKind::Eof, "EOF".to_string()),
        ]
    );
}

#[test]
fn every_keyword_lexes_as_a_keyword() {
    let words = [
        "let", "fn", "for", "while", "if", "else", "match", "True", "False", "None", "class",
        "parent", "rn", "break", "continue", "use", "as",
    ];
    for w in words {
        let tokens = lex(w).unwrap();
        assert_eq!(
            kinds_and_texts(&tokens),
            vec![(TokenKind::Keyword, w.to_string()), (TokenKind::Eof, "EOF".to_string())]
        );
    }
}

#[test]
fn other_words_lex_as_identifiers() {
    for w in ["lets", "x", "none", "Fn", "élan", "_tmp"] {
        let tokens = lex(w).unwrap();
        assert_eq!(
            kinds_and_texts(&tokens),
            vec![(TokenKind::Identifier, w.to_string()), (TokenKind::Eof, "EOF".to_string())]
        );
    }
}

#[test]
fn two_character_operators_are_greedy() {
    let tokens = lex(">= <= == => .. ++ -- != > < = ! & |").unwrap();
    let kinds: Vec<TokenKind> = tokens.iter().map(|t| t.kind).collect();
    assert_eq!(
        kinds,
        vec![
            TokenKind::Gte,
            TokenKind::Lte,
            TokenKind::Eq,
            TokenKind::Arrow,
            TokenKind::DotDot,
            TokenKind::Increment,
            TokenKind::Decrement,
            TokenKind::Ne,
            TokenKind::Gt,
            TokenKind::Lt,
            TokenKind::Assign,
            TokenKind::Negate,
            TokenKind::And,
            TokenKind::Or,
            TokenKind::Eof,
        ]
    );
}

#[test]
fn comments_and_line_ends() {
    let tokens = lex("a # b c\r\n'open string\nd").unwrap();
    assert_eq!(
        kinds_and_texts(&tokens),
        vec![
            (TokenKind::Identifier, "a".to_string()),
            (TokenKind::Str, "open string".to_string()),
            (TokenKind::Identifier, "d".to_string()),
            (TokenKind::Eof, "EOF".to_string()),
        ]
    );
}

#[test]
fn escapes_in_strings() {
    let tokens = lex(r#""a\tb\"c\\d\q" 'it\'s'"#).unwrap();
    assert_eq!(
        kinds_and_texts(&tokens),
        vec![
            (TokenKind::Str, "a\tb\"c\\dq".to_string()),
            (TokenKind::Str, "it's".to_string()),
            (TokenKind::Eof, "EOF".to_string()),
        ]
    );
}

#[test]
fn empty_source_is_only_end_of_input() {
    let tokens = lex("").unwrap();
    assert_eq!(kinds_and_texts(&tokens), vec![(TokenKind::Eof, "EOF".to_string())]);
}

#[test]
fn unknown_character_is_a_lex_error() {
    let err = lex("let x = 1;\nlet y = @;").unwrap_err();
    assert_eq!(err.ch, '@');
    assert_eq!(err.line.iter().collect::<String>(), "let y = @;");
}
