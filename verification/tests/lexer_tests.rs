use stackvm::lexer::{Lexer, TokenKind};

#[test]
fn test_lexer1() {
    let input = "def fun ret if else for + - * / % ( ) { } [ ] ; : , = == ! != < <= > >= && ||";
    let mut lexer = Lexer::new(input);
    while let Some(token) = lexer.next_token() {
        println!("{:?}", token);
    }
}

#[test]
fn test_lexer2() {
    let input = "
        def a = 5;
        def x = 5;
        def y = 10;
        if (x < y) {
            ret true;
        } else {
            ret false;
        }
    ";

    let mut lexer = Lexer::new(input);
    loop {
        let token = lexer.next_token().unwrap();
        println!("{:?}", token);
        if token.kind == TokenKind::EOF {
            break;
        }
    }
}

#[test]
fn lexer_kinds_and_spans() {
    let mut lexer = Lexer::new("def abc = 42;");
    let t1 = lexer.next_token().unwrap();
    assert_eq!(t1.kind, TokenKind::Def);
    assert_eq!(t1.span.start, 0);
    assert_eq!(t1.span.end, 3);
    assert_eq!(t1.span.literal, "def");
    let t2 = lexer.next_token().unwrap();
    assert_eq!(t2.kind, TokenKind::Identifier("abc".to_string()));
    let t3 = lexer.next_token().unwrap();
    assert_eq!(t3.kind, TokenKind::Equal);
    let t4 = lexer.next_token().unwrap();
    assert_eq!(t4.kind, TokenKind::Integer(42));
    assert_eq!(t4.span.literal, "42");
    let t5 = lexer.next_token().unwrap();
    assert_eq!(t5.kind, TokenKind::Semicolon);
    let t6 = lexer.next_token().unwrap();
    assert_eq!(t6.kind, TokenKind::EOF);
    assert!(lexer.next_token().is_none());
}

#[test]
fn lexer_longest_match_punctuation() {
    let mut lexer = Lexer::new("<= >= == != && || < >");
    let kinds = [
        TokenKind::LessEqual,
        TokenKind::GreaterEqual,
        TokenKind::EqualEqual,
        TokenKind::BangEqual,
        TokenKind::And,
        TokenKind::Or,
        TokenKind::Less,
        TokenKind::Greater,
        TokenKind::EOF,
    ];
    for expected in kinds {
        let t = lexer.next_token().unwrap();
        assert_eq!(t.kind, expected);
    }
}

#[test]
fn lexer_integer_saturates() {
    let mut lexer = Lexer::new("99999");
    let t = lexer.next_token().unwrap();
    assert_eq!(t.kind, TokenKind::Integer(32767));
}
