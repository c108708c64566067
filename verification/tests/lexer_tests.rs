use std::collections::VecDeque;

use frontend::lexer::LexError;
use frontend::lexer::Lexer;
use frontend::scan::LexFault;
use frontend::token::Op;
use frontend::token::Position;
use frontend::token::Token;
use frontend::token::Token::{
    Arrow, Assign, CharLit, Comma, Declare, Dot, Fn, Iden, IntLit, LBrace, LBracket, LParen, Operator,
    RBrace, RBracket, RParen, Return, SemiColon, StrLit, Struct, While,
};
use frontend::token::TokenContext;

fn read_float(text: String) -> Option<u64> {
    text.parse::<f64>().ok().map(f64::to_bits)
}

fn lex(program: &str) -> Result<VecDeque<TokenContext>, LexError> {
    Lexer::new(program.as_bytes().to_vec(), read_float).read_tokens()
}

fn lex_tokens(program: &str) -> VecDeque<Token> {
    lex(program).unwrap().into_iter().map(|tok| tok.kind).collect()
}

#[test]
fn test_peek_consume() {
    let text = String::from("abcdefg");
    let mut actual_text = String::new();

    let mut lexer = Lexer::new(text.as_bytes().to_vec(), read_float);
    while let Some(c) = lexer.peek() {
        actual_text.push(c as char);
        lexer.consume();
    }

    assert_eq!(text, actual_text)
}

#[test]
fn test_lex_loop() {
    let program = "
            x := 0;
            while i < n {
                x = x + 2;
            }
        ";
    println!("Lexing:\n{}", program);

    let actual_tokens = lex_tokens(program);
    let expect_tokens = vec![
        Iden("x".to_string()),
        Declare,
        IntLit(0),
        SemiColon,
        While,
        Iden("i".to_string()),
        Operator(Op::Lt),
        Iden("n".to_string()),
        LBrace,
        Iden("x".to_string()),
        Assign,
        Iden("x".to_string()),
        Operator(Op::Plus),
        IntLit(2),
        SemiColon,
        RBrace,
    ];
    assert_eq!(actual_tokens, expect_tokens)
}

#[test]
fn test_lex_func() {
    let program = "
            fn concat_persons(x1 Person, x2 Person) {
                x := \"Names:\";
                x = x1.name + x2.name;
                return x;
            }
        ";
    println!("Lexing:\n{}", program);

    let actual_tokens = lex_tokens(program);
    let expect_tokens = vec![
        Fn,
        Iden("concat_persons".to_string()),
        LParen,
        Iden("x1".to_string()),
        Iden("Person".to_string()),
        Comma,
        Iden("x2".to_string()),
        Iden("Person".to_string()),
        RParen,
        LBrace,
        Iden("x".to_string()),
        Declare,
        StrLit("Names:".to_string()),
        SemiColon,
        Iden("x".to_string()),
        Assign,
        Iden("x1".to_string()),
        Dot,
        Iden("name".to_string()),
        Operator(Op::Plus),
        Iden("x2".to_string()),
        Dot,
        Iden("name".to_string()),
        SemiColon,
        Return,
        Iden("x".to_string()),
        SemiColon,
        RBrace,
    ];
    assert_eq!(actual_tokens, expect_tokens)
}

#[test]
fn test_lex_literal() {
    let program = "
            x := \" \\n \\t \\\\ \";
            y := \'\\n\';
        ";
    println!("Lexing:\n{}", program);

    let actual_tokens = lex_tokens(program);
    let expect_tokens = vec![
        Iden("x".to_string()),
        Declare,
        StrLit(" \n \t \\ ".to_string()),
        SemiColon,
        Iden("y".to_string()),
        Declare,
        CharLit('\n'),
        SemiColon,
    ];
    assert_eq!(actual_tokens, expect_tokens)
}

#[test]
fn test_lex_def() {
    let program = "
            struct Point {
                x int,
                y int,
            }
            fn concat_points(p1 Point, p2 Point) -> []Point
        ";
    let actual_tokens = lex_tokens(program);
    let expect_tokens = vec![
        Struct,
        Iden("Point".to_string()),
        LBrace,
        Iden("x".to_string()),
        Iden("int".to_string()),
        Comma,
        Iden("y".to_string()),
        Iden("int".to_string()),
        Comma,
        RBrace,
        Fn,
        Iden("concat_points".to_string()),
        LParen,
        Iden("p1".to_string()),
        Iden("Point".to_string()),
        Comma,
        Iden("p2".to_string()),
        Iden("Point".to_string()),
        RParen,
        Arrow,
        LBracket,
        RBracket,
        Iden("Point".to_string()),
    ];
    assert_eq!(actual_tokens, expect_tokens)
}

#[test]
fn lex_unterminated_string_is_an_error() {
    let err = lex("x := \"abc").unwrap_err();
    assert_eq!(err.kind, LexFault::Unterminated);
    assert_eq!(err.text, "abc");
    assert_eq!(err.lpos, Position { line: 0, col: 5 });
    assert_eq!(err.rpos, Position { line: 0, col: 9 });
}

#[test]
fn alphanumeric_table_agrees_with_the_scalars() {
    for b in 0u8..=255 {
        let word = vec![b'a', b];
        let tokens = lex_tokens_bytes(word);
        let in_word = tokens.len() == 1
            && matches!(&tokens[0], Some(Iden(word)) if word.chars().count() == 2);
        assert_eq!(in_word, (b as char).is_alphanumeric() || b == b'_', "byte {}", b);
    }
}

fn lex_tokens_bytes(bytes: Vec<u8>) -> Vec<Option<Token>> {
    let mut lexer = Lexer::new(bytes, read_float);
    let mut out = Vec::new();
    loop {
        match lexer.read_token() {
            Ok(Some(tok)) => out.push(Some(tok.kind)),
            Ok(None) => break,
            Err(_) => {
                out.push(None);
                break;
            }
        }
    }
    out
}

fn at(line: u32, col: u32) -> Position {
    Position { line, col }
}

fn fault(kind: LexFault, text: &str, lpos: Position, rpos: Position) -> LexError {
    LexError { kind, text: text.to_string(), lpos, rpos }
}

#[test]
fn lex_loop_on_four_lines() {
    let tokens = lex_tokens("x := 0;\nwhile i < n {\nx = x + 2;\n}\n");
    let expect = vec![
        Iden("x".to_string()),
        Declare,
        IntLit(0),
        SemiColon,
        While,
        Iden("i".to_string()),
        Operator(Op::Lt),
        Iden("n".to_string()),
        LBrace,
        Iden("x".to_string()),
        Assign,
        Iden("x".to_string()),
        Operator(Op::Plus),
        IntLit(2),
        SemiColon,
        RBrace,
    ];
    assert_eq!(tokens, expect);
}

#[test]
fn lex_positions_span_the_tokens() {
    let tokens = lex("x := 0;\nwhile i < n {\n  \"a\nb\" }").unwrap();
    let spans: Vec<(Position, Position)> = tokens.iter().map(|t| (t.lpos, t.rpos)).collect();
    let expect = vec![
        (at(0, 0), at(0, 1)),
        (at(0, 2), at(0, 4)),
        (at(0, 5), at(0, 6)),
        (at(0, 6), at(0, 7)),
        (at(1, 0), at(1, 5)),
        (at(1, 6), at(1, 7)),
        (at(1, 8), at(1, 9)),
        (at(1, 10), at(1, 11)),
        (at(1, 12), at(1, 13)),
        (at(2, 2), at(3, 2)),
        (at(3, 3), at(3, 4)),
    ];
    assert_eq!(spans, expect);
}

#[test]
fn lex_positions_never_go_back() {
    let program = "
            fn concat_persons(x1 Person, x2 Person) {
                x := \"Na\nmes:\";
                x = x1.name + x2.name; y := 'c' 1.5
                return x;
            }
        ";
    let tokens = lex(program).unwrap();
    let mut last = at(0, 0);
    for token in tokens.iter() {
        assert!((last.line, last.col) <= (token.lpos.line, token.lpos.col));
        assert!((token.lpos.line, token.lpos.col) <= (token.rpos.line, token.rpos.col));
        last = token.rpos;
    }
}

#[test]
fn lex_integer_literal_round_trips() {
    for text in ["0", "7", "007", "42", "2147483647", "0000000000002147483647"] {
        let first = lex_tokens(text);
        assert_eq!(first.len(), 1);
        let value = match first[0] {
            IntLit(n) => n,
            _ => panic!("no integer literal"),
        };
        let mut rendered = String::new();
        frontend::decimal::push_decimal(&mut rendered, value as u32);
        assert_eq!(rendered, value.to_string());
        assert_eq!(lex_tokens(&rendered), first);
        let mut again = String::new();
        match lex_tokens(&rendered)[0] {
            IntLit(n) => frontend::decimal::push_decimal(&mut again, n as u32),
            _ => panic!("no integer literal"),
        }
        assert_eq!(again, rendered);
    }
}

#[test]
fn lex_integer_literal_out_of_range() {
    assert_eq!(lex("2147483648").unwrap_err(), fault(LexFault::Int, "2147483648", at(0, 0), at(0, 10)));
    assert_eq!(
        lex("99999999999999999999").unwrap_err(),
        fault(LexFault::Int, "99999999999999999999", at(0, 0), at(0, 20))
    );
    assert_eq!(lex(" 12ab;").unwrap_err(), fault(LexFault::Int, "12ab", at(0, 1), at(0, 5)));
}

#[test]
fn lex_float_literals_are_read_by_the_reader() {
    assert_eq!(lex_tokens("1.5"), vec![Token::FloatLit(1.5f64.to_bits())]);
    assert_eq!(lex_tokens("0.25e2;"), vec![Token::FloatLit(25.0f64.to_bits()), SemiColon]);
    assert_eq!(lex_tokens("3."), vec![Token::FloatLit(3.0f64.to_bits())]);
    assert_eq!(lex("1.2.3").unwrap_err(), fault(LexFault::Float, "1.2.3", at(0, 0), at(0, 5)));
    assert_eq!(lex("x 1.name").unwrap_err(), fault(LexFault::Float, "1.name", at(0, 2), at(0, 8)));
    let none = |_: String| -> Option<u64> { None };
    let err = Lexer::new(b"1.5".to_vec(), none).read_tokens().unwrap_err();
    assert_eq!(err, fault(LexFault::Float, "1.5", at(0, 0), at(0, 3)));
    let seven = |_: String| -> Option<u64> { Some(7) };
    let tokens = Lexer::new(b"1.5".to_vec(), seven).read_tokens().unwrap();
    assert_eq!(tokens[0].kind, Token::FloatLit(7));
}

#[test]
fn lex_escape_sequences() {
    assert_eq!(
        lex_tokens("\"a\\\\b\\nc\\td\\re\\0f\\\"g'\""),
        vec![StrLit("a\\b\nc\td\re\0f\"g'".to_string())]
    );
    assert_eq!(lex_tokens("'\\''"), vec![CharLit('\'')]);
    assert_eq!(lex_tokens("'\"'"), vec![CharLit('"')]);
    assert_eq!(lex_tokens("\"\""), vec![StrLit(String::new())]);
}

#[test]
fn lex_bad_escape_names_the_character() {
    let err = lex("x \"ab\\qcd\"").unwrap_err();
    assert_eq!(err, fault(LexFault::Escape, "q", at(0, 5), at(0, 7)));
    assert_eq!(
        err.render(),
        "Invalid esc seq: '\\q' between line: 0, col: 5 and line: 0, col: 7"
    );
    assert_eq!(lex("'\\\"'").unwrap_err(), fault(LexFault::Escape, "\"", at(0, 1), at(0, 3)));
}

#[test]
fn lex_char_literal_holds_one_character() {
    assert_eq!(lex_tokens("'a'"), vec![CharLit('a')]);
    assert_eq!(lex("''").unwrap_err(), fault(LexFault::Char, "", at(0, 0), at(0, 2)));
    assert_eq!(lex("'ab'").unwrap_err(), fault(LexFault::Char, "ab", at(0, 0), at(0, 4)));
    let bytes = vec![b'\'', 0xE9, b'\''];
    let tokens = Lexer::new(bytes, read_float).read_tokens().unwrap();
    assert_eq!(tokens[0].kind, CharLit('é'));
}

#[test]
fn lex_unterminated_literals() {
    assert_eq!(lex("\"abc").unwrap_err(), fault(LexFault::Unterminated, "abc", at(0, 0), at(0, 4)));
    assert_eq!(lex("'a").unwrap_err(), fault(LexFault::Unterminated, "a", at(0, 0), at(0, 2)));
    assert_eq!(lex("\"ab\\").unwrap_err(), fault(LexFault::Unterminated, "ab", at(0, 0), at(0, 4)));
    assert_eq!(
        lex("\n \"a\nb").unwrap_err(),
        fault(LexFault::Unterminated, "a\nb", at(1, 1), at(2, 1))
    );
    assert_eq!(
        lex("\"abc").unwrap_err().render(),
        "Unterminated literal: 'abc' between line: 0, col: 0 and line: 0, col: 4"
    );
}

#[test]
fn lex_operators() {
    let tokens = lex_tokens("* ** *= **= - -= + += / /= := = == != <= < >= > && || ! ->");
    let expect = vec![
        Operator(Op::Multiply),
        Operator(Op::Exp),
        Token::AssignOp(frontend::token::Aop::Multiply),
        Token::AssignOp(frontend::token::Aop::Exp),
        Operator(Op::Minus),
        Token::AssignOp(frontend::token::Aop::Minus),
        Operator(Op::Plus),
        Token::AssignOp(frontend::token::Aop::Plus),
        Operator(Op::Divide),
        Token::AssignOp(frontend::token::Aop::Divide),
        Declare,
        Assign,
        Operator(Op::Eq),
        Operator(Op::Neq),
        Operator(Op::Leq),
        Operator(Op::Lt),
        Operator(Op::Geq),
        Operator(Op::Gt),
        Operator(Op::And),
        Operator(Op::Or),
        Operator(Op::Not),
        Arrow,
    ];
    assert_eq!(tokens, expect);
    assert_eq!(lex_tokens("!x"), vec![Operator(Op::Not), Iden("x".to_string())]);
    assert_eq!(lex_tokens("a<b"), vec![Iden("a".to_string()), Operator(Op::Lt), Iden("b".to_string())]);
    assert_eq!(lex_tokens("-(1)"), vec![Operator(Op::Minus), LParen, IntLit(1), RParen]);
}

#[test]
fn lex_unknown_symbol_run() {
    assert_eq!(lex("a <> b").unwrap_err(), fault(LexFault::Symbol, "<>", at(0, 2), at(0, 4)));
    assert_eq!(lex("!!x").unwrap_err(), fault(LexFault::Symbol, "!!", at(0, 0), at(0, 2)));
    assert_eq!(lex("_x").unwrap_err(), fault(LexFault::Symbol, "_", at(0, 0), at(0, 1)));
    assert_eq!(lex("a\r\nb").unwrap_err(), fault(LexFault::Symbol, "\r", at(0, 1), at(0, 2)));
    assert_eq!(
        lex("a <> b").unwrap_err().render(),
        "Invalid token: '<>' between line: 0, col: 2 and line: 0, col: 4"
    );
}

#[test]
fn lex_keywords_and_identifiers() {
    let tokens = lex_tokens("fn struct type return break continue while for in true false import");
    let expect = vec![
        Fn,
        Struct,
        Token::Type,
        Return,
        Token::Break,
        Token::Continue,
        While,
        Token::For,
        Token::In,
        Token::True,
        Token::False,
        Token::Import,
    ];
    assert_eq!(tokens, expect);
    assert_eq!(
        lex_tokens("fnx x_1 Type"),
        vec![Iden("fnx".to_string()), Iden("x_1".to_string()), Iden("Type".to_string())]
    );
}

#[test]
fn lex_delimiters() {
    assert_eq!(
        lex_tokens("[](){},.;"),
        vec![LBracket, RBracket, LParen, RParen, LBrace, RBrace, Comma, Dot, SemiColon]
    );
}

#[test]
fn lex_goes_on_after_an_error() {
    let mut lexer = Lexer::new(b"a <> b".to_vec(), read_float);
    assert_eq!(lexer.read_token().unwrap().unwrap().kind, Iden("a".to_string()));
    assert!(lexer.read_token().is_err());
    assert_eq!(lexer.read_token().unwrap().unwrap().kind, Iden("b".to_string()));
    assert_eq!(lexer.read_token(), Ok(None));
    assert_eq!(lexer.read_token(), Ok(None));
}

#[test]
fn lex_read_and_skip() {
    let mut lexer = Lexer::new(b" \t\n ab".to_vec(), read_float);
    lexer.skip_spaces();
    assert_eq!(lexer.peek(), Some(b'a'));
    assert_eq!(lexer.read(), Some(b'a'));
    assert_eq!(lexer.read(), Some(b'b'));
    assert_eq!(lexer.read(), None);
    assert_eq!(lexer.peek(), None);
    lexer.consume();
    assert_eq!(lexer.read(), None);
}

#[test]
fn token_text_names_the_class() {
    assert_eq!(IntLit(3).to_text(), "<int>");
    assert_eq!(LParen.to_text(), "'('");
    assert_eq!(Arrow.to_text(), "'->'");
    assert_eq!(Iden("a".to_string()).to_text(), "<iden>");
    let token = TokenContext { kind: While, lpos: at(1, 2), rpos: at(1, 7) };
    assert_eq!(token.render(), "while between line: 1, col: 2 and line: 1, col: 7");
    assert_eq!(at(10, 4294967295).render(), "line: 10, col: 4294967295");
    assert!(Iden("a".to_string()).same(&Iden("a".to_string())));
    assert!(!Iden("a".to_string()).same(&Iden("b".to_string())));
    assert!(!LParen.same(&RParen));
    assert!(Operator(Op::Lt).same(&Operator(Op::Lt)));
    assert!(!Operator(Op::Lt).same(&Operator(Op::Gt)));
}

#[test]
fn errors_render_on_one_line() {
    let err = lex("\n \"a\nb").unwrap_err();
    assert_eq!(
        err.render(),
        "Unterminated literal: 'a\\nb' between line: 1, col: 1 and line: 2, col: 1"
    );
    let err = lex("'\\\n'").unwrap_err();
    assert_eq!(err.text, "\n");
    assert_eq!(
        err.render(),
        "Invalid esc seq: '\\\\n' between line: 0, col: 1 and line: 1, col: 0"
    );
    let mut line = String::from("a\n\nb\\n");
    line = frontend::text::to_one_line(&line);
    assert_eq!(line, "a\\n\\nb\\n");
}

#[test]
fn token_text_of_every_class() {
    let cases = vec![
        (IntLit(1), "<int>"),
        (Token::FloatLit(0), "<float>"),
        (CharLit('a'), "<char>"),
        (StrLit(String::new()), "<string>"),
        (LParen, "'('"),
        (RParen, "')'"),
        (LBracket, "'['"),
        (RBracket, "']'"),
        (LBrace, "'{'"),
        (RBrace, "'}'"),
        (Dot, "'.'"),
        (Comma, "','"),
        (Declare, "':='"),
        (Assign, "'='"),
        (Token::AssignOp(frontend::token::Aop::Plus), "<assignop>"),
        (Operator(Op::Plus), "<operator>"),
        (Iden(String::new()), "<iden>"),
        (Token::True, "true"),
        (Token::False, "false"),
        (Fn, "fn"),
        (Struct, "struct"),
        (Token::Type, "type"),
        (Return, "return"),
        (Token::Break, "break"),
        (Token::Continue, "continue"),
        (While, "while"),
        (Token::For, "for"),
        (Token::In, "in"),
        (Token::Import, "import"),
        (SemiColon, "';'"),
        (Arrow, "'->'"),
    ];
    for (i, (token, text)) in cases.iter().enumerate() {
        assert_eq!(token.to_text(), *text);
        for (j, (other, _)) in cases.iter().enumerate() {
            assert_eq!(token.same(other), i == j);
        }
    }
}

#[test]
fn lexer_try_new_takes_a_source_of_any_common_length() {
    let mut lexer = Lexer::try_new(b"a b".to_vec(), read_float).unwrap();
    assert_eq!(lexer.read_tokens().unwrap().len(), 2);
    assert!(Lexer::try_new(Vec::new(), read_float).is_some());
}
