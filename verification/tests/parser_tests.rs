use std::collections::VecDeque;

use frontend::lexer::Lexer;
use frontend::node::Bop;
use frontend::node::Bop::{Leq, Minus, Multiply, Plus};
use frontend::node::Const;
use frontend::node::Const::Int;
use frontend::node::Uop;
use frontend::node::Node;
use frontend::node::Node::{
    Assign, Binop, Constant, DefFunc, DefStruct, DefTypeAlias, Func, Guard, Import, Return, Variable,
    While,
};
use frontend::node::{
    BinopNode, DefFuncNode, DefStructNode, DefTypeAliasNode, FuncNode, GuardNode, ImportNode, TypeNode,
    WhileNode,
};
use frontend::parser::Expected;
use frontend::parser::ParseError;
use frontend::parser::Parser;
use frontend::token::Position;
use frontend::token::Token;
use frontend::token::TokenContext;

fn read_float(text: String) -> Option<u64> {
    text.parse::<f64>().ok().map(f64::to_bits)
}

fn tokens_of(program: &str) -> VecDeque<TokenContext> {
    Lexer::new(program.as_bytes().to_vec(), read_float).read_tokens().unwrap()
}

fn parse(program: &str) -> Result<Vec<Node>, ParseError> {
    Parser::new(tokens_of(program)).parse_program()
}

fn named(name: &str) -> TypeNode {
    TypeNode::Iden(name.to_string())
}

#[test]
fn test_parse_def() {
    let program = "
            struct Point {
                x int,
                y int,
            }
            fn concat_points(p1 Point, p2 Point) -> []Point
        ";
    let tokens = tokens_of(program);
    println!("tokens {:?}", tokens);

    let actual_nodes = Parser::new(tokens).parse_program().unwrap();
    let expect_nodes = vec![
        DefStruct(DefStructNode {
            iden: "Point".to_string(),
            fields: vec![
                ("x".to_string(), TypeNode::Iden("int".to_string())),
                ("y".to_string(), TypeNode::Iden("int".to_string())),
            ],
        }),
        DefFunc(DefFuncNode {
            iden: "concat_points".to_string(),
            args: vec![
                ("p1".to_string(), TypeNode::Iden("Point".to_string())),
                ("p2".to_string(), TypeNode::Iden("Point".to_string())),
            ],
            ret: Some(TypeNode::Array(Box::new(TypeNode::Iden("Point".to_string())))),
            body: vec![],
        }),
    ];
    assert_eq!(actual_nodes, expect_nodes)
}

#[test]
fn test_parse_loop() {
    let expect_node = While(WhileNode {
        cond: Box::new(Binop(BinopNode {
            op: Bop::Lt,
            lhs: Box::new(Variable("i".to_string())),
            rhs: Box::new(Variable("n".to_string())),
        })),
        body: vec![
            Assign(
                "acc".to_string(),
                Box::new(Binop(BinopNode {
                    op: Multiply,
                    lhs: Box::new(Variable("acc".to_string())),
                    rhs: Box::new(Variable("x".to_string())),
                })),
            ),
            Assign(
                "i".to_string(),
                Box::new(Binop(BinopNode {
                    op: Plus,
                    lhs: Box::new(Variable("i".to_string())),
                    rhs: Box::new(Variable("1".to_string())),
                })),
            ),
        ],
    });
    assert!(matches!(expect_node, While(_)));
}

#[test]
fn test_parse_func() {
    let expect_node = DefFunc(DefFuncNode {
        iden: "sum".to_string(),
        args: vec![("n".to_string(), TypeNode::Iden("int".to_string()))],
        ret: Some(TypeNode::Iden("int".to_string())),
        body: vec![
            Guard(GuardNode {
                cond: Box::new(Binop(BinopNode {
                    op: Leq,
                    lhs: Box::new(Variable("n".to_string())),
                    rhs: Box::new(Constant(Int(0))),
                })),
                this: Box::new(Constant(Int(0))),
            }),
            Return(Box::new(Binop(BinopNode {
                op: Plus,
                lhs: Box::new(Func(FuncNode {
                    iden: "fib".to_string(),
                    args: vec![Binop(BinopNode {
                        op: Minus,
                        lhs: Box::new(Variable("n".to_string())),
                        rhs: Box::new(Constant(Int(1))),
                    })],
                })),
                rhs: Box::new(Constant(Int(1))),
            }))),
        ],
    });
    assert!(matches!(expect_node, DefFunc(_)));
}

#[test]
fn parse_struct_then_function_with_array_return() {
    let nodes = parse("struct Point { x int, y int, } fn f(p Point) -> []Point").unwrap();
    let expect = vec![
        DefStruct(DefStructNode {
            iden: "Point".to_string(),
            fields: vec![("x".to_string(), named("int")), ("y".to_string(), named("int"))],
        }),
        DefFunc(DefFuncNode {
            iden: "f".to_string(),
            args: vec![("p".to_string(), named("Point"))],
            ret: Some(TypeNode::Array(Box::new(named("Point")))),
            body: vec![],
        }),
    ];
    assert_eq!(nodes, expect);
}

#[test]
fn parse_empty_program() {
    assert_eq!(parse("").unwrap(), vec![]);
}

#[test]
fn parse_import_and_alias() {
    let nodes = parse("import math type Pair [][]int type F fn(int, []int) -> fn(int)").unwrap();
    let expect = vec![
        Import(ImportNode { iden: "math".to_string() }),
        DefTypeAlias(DefTypeAliasNode {
            iden: "Pair".to_string(),
            type_node: TypeNode::Array(Box::new(TypeNode::Array(Box::new(named("int"))))),
        }),
        DefTypeAlias(DefTypeAliasNode {
            iden: "F".to_string(),
            type_node: TypeNode::Fn(
                vec![named("int"), TypeNode::Array(Box::new(named("int")))],
                Some(Box::new(TypeNode::Fn(vec![named("int")], None))),
            ),
        }),
    ];
    assert_eq!(nodes, expect);
}

#[test]
fn parse_function_without_parameters_or_return() {
    let nodes = parse("fn main()").unwrap();
    let expect = vec![DefFunc(DefFuncNode {
        iden: "main".to_string(),
        args: vec![],
        ret: None,
        body: vec![],
    })];
    assert_eq!(nodes, expect);
}

#[test]
fn parse_trailing_comma_before_terminator() {
    let nodes = parse("fn f(a int, b int,)").unwrap();
    let expect = vec![DefFunc(DefFuncNode {
        iden: "f".to_string(),
        args: vec![("a".to_string(), named("int")), ("b".to_string(), named("int"))],
        ret: None,
        body: vec![],
    })];
    assert_eq!(nodes, expect);
}

fn located(kind: Token, line: u32, from: u32, to: u32) -> TokenContext {
    TokenContext {
        kind,
        lpos: Position { line, col: from },
        rpos: Position { line, col: to },
    }
}

#[test]
fn parse_error_for_a_token_that_starts_no_declaration() {
    let err = parse("import a x").unwrap_err();
    let expect = ParseError::Unexpected {
        expected: Expected::Declaration,
        found: located(Token::Iden("x".to_string()), 0, 9, 10),
    };
    assert_eq!(err, expect);
    assert_eq!(
        err.render(),
        "import, fn, type or struct expected, got <iden> between line: 0, col: 9 and line: 0, col: 10"
    );
}

#[test]
fn parse_error_at_the_end_of_the_tokens() {
    assert_eq!(parse("import").unwrap_err(), ParseError::EndOfStream);
    assert_eq!(parse("fn f(a").unwrap_err(), ParseError::EndOfStream);
    assert_eq!(parse("struct S {").unwrap_err(), ParseError::EndOfStream);
    assert_eq!(parse("type T fn(int").unwrap_err(), ParseError::EndOfStream);
    assert_eq!(
        ParseError::EndOfStream.render(),
        "expected token, but reached end of the stream"
    );
}

#[test]
fn parse_error_names_what_was_expected() {
    let cases: Vec<(&str, Expected, Token, u32, u32)> = vec![
        ("import 1", Expected::ImportName, Token::IntLit(1), 7, 8),
        ("fn 1", Expected::FunctionName, Token::IntLit(1), 3, 4),
        ("type 1", Expected::AliasName, Token::IntLit(1), 5, 6),
        ("struct 1", Expected::StructName, Token::IntLit(1), 7, 8),
        ("fn f {", Expected::Token(Token::LParen), Token::LBrace, 5, 6),
        ("struct S (", Expected::Token(Token::LBrace), Token::LParen, 9, 10),
        ("fn f(1", Expected::NameOr(Token::RParen), Token::IntLit(1), 5, 6),
        ("struct S {1", Expected::NameOr(Token::RBrace), Token::IntLit(1), 10, 11),
        ("fn f(a int;", Expected::CommaOr(Token::RParen), Token::SemiColon, 10, 11),
        ("struct S {a int)", Expected::CommaOr(Token::RBrace), Token::RParen, 15, 16),
        ("type T fn [", Expected::ParamTypes, Token::LBracket, 10, 11),
        ("type T [ int", Expected::ArrayBrackets, Token::Iden("int".to_string()), 9, 12),
        ("type T )", Expected::Type, Token::RParen, 7, 8),
        ("type T fn()", Expected::Type, Token::RParen, 10, 11),
        ("type T fn(int;", Expected::CommaOrParen, Token::SemiColon, 13, 14),
    ];
    for (program, expected, kind, from, to) in cases {
        let expect =
            ParseError::Unexpected { expected, found: located(kind, 0, from, to) };
        assert_eq!(parse(program).unwrap_err(), expect, "program {:?}", program);
    }
}

#[test]
fn parse_error_renders_the_expected_token() {
    let err = parse("fn f {").unwrap_err();
    assert_eq!(
        err.render(),
        "'(' token expected, got '{' between line: 0, col: 5 and line: 0, col: 6"
    );
    let err = parse("struct S {a int)").unwrap_err();
    assert_eq!(
        err.render(),
        "expected '}' or ',' in definition, got ')' between line: 0, col: 15 and line: 0, col: 16"
    );
}

fn expr(program: &str) -> Result<Node, ParseError> {
    Parser::new(tokens_of(program)).parse_expr()
}

fn num(n: i32) -> Node {
    Constant(Int(n))
}

fn var(name: &str) -> Node {
    Variable(name.to_string())
}

fn bin(op: Bop, lhs: Node, rhs: Node) -> Node {
    Binop(BinopNode { op, lhs: Box::new(lhs), rhs: Box::new(rhs) })
}

fn un(op: Uop, expr: Node) -> Node {
    Node::Unop(frontend::node::UnopNode { op, expr: Box::new(expr) })
}

#[test]
fn parse_expr_groups_by_precedence() {
    assert_eq!(expr("2 * 3 + 1").unwrap(), bin(Plus, bin(Multiply, num(2), num(3)), num(1)));
    assert_eq!(expr("1 + 2 * 3").unwrap(), bin(Plus, num(1), bin(Multiply, num(2), num(3))));
    assert_eq!(
        expr("a || b == c + d * e ** f").unwrap(),
        bin(
            Bop::Or,
            var("a"),
            bin(
                Bop::Eq,
                var("b"),
                bin(Plus, var("c"), bin(Multiply, var("d"), bin(Bop::Exp, var("e"), var("f"))))
            )
        )
    );
    assert_eq!(
        expr("a ** b * c + d < e && f").unwrap(),
        bin(
            Bop::And,
            bin(
                Bop::Lt,
                bin(Plus, bin(Multiply, bin(Bop::Exp, var("a"), var("b")), var("c")), var("d")),
                var("e")
            ),
            var("f")
        )
    );
}

#[test]
fn parse_expr_groups_to_the_left_but_for_the_exponent() {
    assert_eq!(expr("1 - 2 - 3").unwrap(), bin(Minus, bin(Minus, num(1), num(2)), num(3)));
    assert_eq!(expr("1 - 2 + 3").unwrap(), bin(Plus, bin(Minus, num(1), num(2)), num(3)));
    assert_eq!(
        expr("8 / 4 * 2").unwrap(),
        bin(Multiply, bin(Bop::Divide, num(8), num(4)), num(2))
    );
    assert_eq!(
        expr("a && b || c").unwrap(),
        bin(Bop::Or, bin(Bop::And, var("a"), var("b")), var("c"))
    );
    assert_eq!(
        expr("a || b && c").unwrap(),
        bin(Bop::And, bin(Bop::Or, var("a"), var("b")), var("c"))
    );
    assert_eq!(
        expr("a < b == c").unwrap(),
        bin(Bop::Eq, bin(Bop::Lt, var("a"), var("b")), var("c"))
    );
    assert_eq!(
        expr("2 ** 3 ** 2").unwrap(),
        bin(Bop::Exp, num(2), bin(Bop::Exp, num(3), num(2)))
    );
}

#[test]
fn parse_expr_unary_binds_tighter_than_binary() {
    assert_eq!(expr("-2 ** 2").unwrap(), bin(Bop::Exp, un(Uop::Minus, num(2)), num(2)));
    assert_eq!(expr("- - a").unwrap(), un(Uop::Minus, un(Uop::Minus, var("a"))));
    assert_eq!(expr("! a && b").unwrap(), bin(Bop::And, un(Uop::Not, var("a")), var("b")));
    assert_eq!(expr("a - -b").unwrap(), bin(Minus, var("a"), un(Uop::Minus, var("b"))));
    assert_eq!(expr("!(a)").unwrap(), un(Uop::Not, var("a")));
}

#[test]
fn parse_expr_primaries() {
    assert_eq!(expr("1.5").unwrap(), Constant(Const::Float(1.5f64.to_bits())));
    assert_eq!(expr("'c'").unwrap(), Constant(Const::Char('c')));
    assert_eq!(expr("\"ab\"").unwrap(), Constant(Const::String("ab".to_string())));
    assert_eq!(expr("true").unwrap(), Constant(Const::Bool(true)));
    assert_eq!(expr("false").unwrap(), Constant(Const::Bool(false)));
    assert_eq!(expr("x").unwrap(), var("x"));
    assert_eq!(expr("(x)").unwrap(), var("x"));
    assert_eq!(expr("((1 + 2)) * 3").unwrap(), bin(Multiply, bin(Plus, num(1), num(2)), num(3)));
    assert_eq!(
        expr("f(1, x + 2)").unwrap(),
        Node::CallFunc(FuncNode {
            iden: "f".to_string(),
            args: vec![num(1), bin(Plus, var("x"), num(2))]
        })
    );
    assert_eq!(expr("f()").unwrap(), Node::CallFunc(FuncNode { iden: "f".to_string(), args: vec![] }));
    assert_eq!(
        expr("f(1,)").unwrap(),
        Node::CallFunc(FuncNode { iden: "f".to_string(), args: vec![num(1)] })
    );
    assert_eq!(expr("[]").unwrap(), Node::Array(vec![]));
    assert_eq!(expr("[1, [2], x]").unwrap(), Node::Array(vec![num(1), Node::Array(vec![num(2)]), var("x")]));
    assert_eq!(expr("()").unwrap(), Node::Tuple(vec![]));
    assert_eq!(expr("(1,)").unwrap(), Node::Tuple(vec![num(1)]));
    assert_eq!(expr("(1, 2)").unwrap(), Node::Tuple(vec![num(1), num(2)]));
    assert_eq!(expr("(1, (2, 3), 4,)").unwrap(), Node::Tuple(vec![num(1), Node::Tuple(vec![num(2), num(3)]), num(4)]));
}

#[test]
fn parse_expr_leaves_what_follows() {
    let mut parser = Parser::new(tokens_of("1 + 2 ; x"));
    assert_eq!(parser.parse_expr().unwrap(), bin(Plus, num(1), num(2)));
    assert_eq!(
        parser.parse_expr().unwrap_err(),
        ParseError::Unexpected {
            expected: Expected::Expression,
            found: located(Token::SemiColon, 0, 6, 7)
        }
    );
    assert_eq!(parser.parse_expr().unwrap(), var("x"));
    assert_eq!(parser.parse_expr().unwrap_err(), ParseError::EndOfStream);
}

#[test]
fn parse_expr_errors() {
    assert_eq!(expr("").unwrap_err(), ParseError::EndOfStream);
    assert_eq!(expr("1 +").unwrap_err(), ParseError::EndOfStream);
    assert_eq!(expr("(1").unwrap_err(), ParseError::EndOfStream);
    assert_eq!(expr("f(1").unwrap_err(), ParseError::EndOfStream);
    assert_eq!(expr("[1,").unwrap_err(), ParseError::EndOfStream);
    assert_eq!(
        expr("1 + *").unwrap_err(),
        ParseError::Unexpected {
            expected: Expected::Expression,
            found: located(Token::Operator(frontend::token::Op::Multiply), 0, 4, 5)
        }
    );
    assert_eq!(
        expr("(1 ]").unwrap_err(),
        ParseError::Unexpected {
            expected: Expected::CommaOr(Token::RParen),
            found: located(Token::RBracket, 0, 3, 4)
        }
    );
    assert_eq!(
        expr("[1 2]").unwrap_err(),
        ParseError::Unexpected {
            expected: Expected::CommaOr(Token::RBracket),
            found: located(Token::IntLit(2), 0, 3, 4)
        }
    );
    assert_eq!(
        expr("f(1;").unwrap_err(),
        ParseError::Unexpected {
            expected: Expected::CommaOr(Token::RParen),
            found: located(Token::SemiColon, 0, 3, 4)
        }
    );
    assert_eq!(
        expr("fn").unwrap_err().render(),
        "expected <literal>, <iden>, '(', '[', '!' or '-' as expression, got fn between line: 0, col: 0 and line: 0, col: 2"
    );
}
