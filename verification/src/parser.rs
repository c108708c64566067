//! The parser: it makes the declarations of a program from its tokens.

use std::collections::VecDeque;
use vstd::prelude::*;
use vstd::string::StringExecFns;
use crate::grammar::advance;
use crate::grammar::binary_operator;
use crate::grammar::climb;
use crate::grammar::expect;
use crate::grammar::literal;
use crate::grammar::precedence;
use crate::grammar::unary_operator;
use crate::grammar::ExpectedModel;
use crate::grammar::ParseErrorModel;
use crate::node::node_models;
use crate::node::optional_type_model;
use crate::node::pair_models;
use crate::node::type_models;
use crate::node::BinopNode;
use crate::node::Bop;
use crate::node::Const;
use crate::node::DefFuncNode;
use crate::node::DefStructNode;
use crate::node::DefTypeAliasNode;
use crate::node::FuncNode;
use crate::node::ImportNode;
use crate::node::Node;
use crate::node::NodeModel;
use crate::node::TypeModel;
use crate::node::TypeNode;
use crate::node::UnopNode;
use crate::node::Uop;
use crate::text::lemma_one_line;
use crate::text::one_line;
use crate::text::to_one_line;
use crate::token::token_models;
use crate::token::Op;
use crate::token::Token;
use crate::token::TokenContext;
use crate::token::TokenContextModel;

verus! {

/// What the parser expected where it found another token.
#[derive(Debug, PartialEq)]
pub enum Expected {
    /// One of `import`, `fn`, `type` and `struct`, which start a declaration.
    Declaration,
    /// The identifier that an import names.
    ImportName,
    /// The name of a function.
    FunctionName,
    /// The name of a type alias.
    AliasName,
    /// The name of a struct.
    StructName,
    /// The given token.
    Token(Token),
    /// A name, or the given token, which ends a list of names with their types.
    NameOr(Token),
    /// A comma, or the given token, which ends a list of names with their types.
    CommaOr(Token),
    /// The parenthesis that opens the parameter types of a function type.
    ParamTypes,
    /// The bracket that closes the brackets of an array type.
    ArrayBrackets,
    /// An identifier, `fn` or a bracket, which start a type.
    Type,
    /// A comma or the parenthesis that closes the parameter types of a function type.
    CommaOrParen,
    /// A literal, an identifier, a parenthesis, a bracket, `!` or `-`, which start an
    /// expression.
    Expression,
}

impl View for Expected {
    type V = ExpectedModel;

    open spec fn view(&self) -> ExpectedModel {
        match self {
            Expected::Declaration => ExpectedModel::Declaration,
            Expected::ImportName => ExpectedModel::ImportName,
            Expected::FunctionName => ExpectedModel::FunctionName,
            Expected::AliasName => ExpectedModel::AliasName,
            Expected::StructName => ExpectedModel::StructName,
            Expected::Token(token) => ExpectedModel::Token(token@),
            Expected::NameOr(token) => ExpectedModel::NameOr(token@),
            Expected::CommaOr(token) => ExpectedModel::CommaOr(token@),
            Expected::ParamTypes => ExpectedModel::ParamTypes,
            Expected::ArrayBrackets => ExpectedModel::ArrayBrackets,
            Expected::Type => ExpectedModel::Type,
            Expected::CommaOrParen => ExpectedModel::CommaOrParen,
            Expected::Expression => ExpectedModel::Expression,
        }
    }
}

/// A syntax error.
#[derive(Debug, PartialEq)]
pub enum ParseError {
    /// The tokens ended where one more was expected.
    EndOfStream,
    /// A token stands where something else was expected.
    Unexpected { expected: Expected, found: TokenContext },
}

impl View for ParseError {
    type V = ParseErrorModel;

    open spec fn view(&self) -> ParseErrorModel {
        match self {
            ParseError::EndOfStream => ParseErrorModel::EndOfStream,
            ParseError::Unexpected { expected, found } => ParseErrorModel::Unexpected {
                expected: expected@,
                found: found@,
            },
        }
    }
}

impl ExpectedModel {
    /// The words that say what was expected.
    pub open spec fn rendered(self) -> Seq<char> {
        match self {
            ExpectedModel::Declaration => "import, fn, type or struct expected"@,
            ExpectedModel::ImportName => "expected <iden> in import"@,
            ExpectedModel::FunctionName => "expected <iden> in function definition"@,
            ExpectedModel::AliasName => "expected <iden> in type definition"@,
            ExpectedModel::StructName => "expected <iden> after a struct definition"@,
            ExpectedModel::Token(token) => token.text() + " token expected"@,
            ExpectedModel::NameOr(token) => "expected "@ + token.text() + " or <iden> in definition"@,
            ExpectedModel::CommaOr(token) => "expected "@ + token.text() + " or ',' in definition"@,
            ExpectedModel::ParamTypes => "expected '(' after <fn>"@,
            ExpectedModel::ArrayBrackets => "expected '[]' before an array type"@,
            ExpectedModel::Type => "expected <iden>, <fn>, or <array> as type definition"@,
            ExpectedModel::CommaOrParen => "expected ',' or ')' after argument type in fn type"@,
            ExpectedModel::Expression => "expected <literal>, <iden>, '(', '[', '!' or '-' as expression"@,
        }
    }
}

impl ParseErrorModel {
    /// The line that presents the error to a reader: what was expected, and the token
    /// that was found with its positions.
    pub open spec fn rendered(self) -> Seq<char> {
        one_line(
            match self {
                ParseErrorModel::EndOfStream => "expected token, but reached end of the stream"@,
                ParseErrorModel::Unexpected { expected, found } => expected.rendered() + ", got "@
                    + found.rendered(),
            },
        )
    }
}

impl Expected {
    /// The words that say what was expected.
    pub fn render(&self) -> (s: String)
        ensures
            s@ == self@.rendered(),
    {
        match self {
            Expected::Declaration => String::from_str("import, fn, type or struct expected"),
            Expected::ImportName => String::from_str("expected <iden> in import"),
            Expected::FunctionName => String::from_str("expected <iden> in function definition"),
            Expected::AliasName => String::from_str("expected <iden> in type definition"),
            Expected::StructName => String::from_str("expected <iden> after a struct definition"),
            Expected::Token(token) => {
                let mut s = String::from_str(token.to_text());
                s.append(" token expected");
                s
            },
            Expected::NameOr(token) => {
                let mut s = String::from_str("expected ");
                s.append(token.to_text());
                s.append(" or <iden> in definition");
                s
            },
            Expected::CommaOr(token) => {
                let mut s = String::from_str("expected ");
                s.append(token.to_text());
                s.append(" or ',' in definition");
                s
            },
            Expected::ParamTypes => String::from_str("expected '(' after <fn>"),
            Expected::ArrayBrackets => String::from_str("expected '[]' before an array type"),
            Expected::Type => String::from_str("expected <iden>, <fn>, or <array> as type definition"),
            Expected::CommaOrParen => String::from_str(
                "expected ',' or ')' after argument type in fn type",
            ),
            Expected::Expression => String::from_str(
                "expected <literal>, <iden>, '(', '[', '!' or '-' as expression",
            ),
        }
    }
}

impl ParseError {
    /// Presents the error as one line: what was expected, and the token that was found
    /// with its positions.
    pub fn render(&self) -> (s: String)
        ensures
            s@ == self@.rendered(),
            !s@.contains('\n'),
    {
        let s = match self {
            ParseError::EndOfStream => String::from_str("expected token, but reached end of the stream"),
            ParseError::Unexpected { expected, found } => {
                let mut s = expected.render();
                s.append(", got ");
                let token = found.render();
                s.append(token.as_str());
                s
            },
        };
        proof {
            lemma_one_line(s@);
        }
        to_one_line(&s)
    }
}

/// A parser over the tokens of a program.
pub struct Parser {
    tokens: VecDeque<TokenContext>,
}

impl View for Parser {
    type V = Seq<TokenContextModel>;

    /// The tokens that are left.
    closed spec fn view(&self) -> Seq<TokenContextModel> {
        token_models(self.tokens@)
    }
}

impl Parser {
    /// A parser at the start of `tokens`.
    pub fn new(tokens: VecDeque<TokenContext>) -> (parser: Parser)
        ensures
            parser@ == token_models(tokens@),
    {
        Parser { tokens }
    }

    /// The next token, which stays where it is, or nothing where none is left.
    fn peek_token(&self) -> (r: Option<&TokenContext>)
        ensures
            self@.len() == 0 ==> r is None,
            self@.len() > 0 ==> (r matches Some(token) && token@ == self@[0]),
    {
        if self.tokens.len() > 0 {
            Some(&self.tokens[0])
        } else {
            None
        }
    }

    /// Drops the next token, if one is left.
    fn consume_token(&mut self)
        ensures
            final(self)@ == if old(self)@.len() > 0 {
                old(self)@.drop_first()
            } else {
                old(self)@
            },
    {
        let _ = self.next_token();
    }

    /// Takes the next token, or nothing where none is left.
    fn next_token(&mut self) -> (r: Option<TokenContext>)
        ensures
            match r {
                Some(token) => old(self)@.len() > 0 && token@ == old(self)@[0] && final(self)@ == old(self)@.drop_first(),
                None => old(self)@.len() == 0 && final(self)@ == old(self)@,
            },
    {
        let r = self.tokens.pop_front();
        proof {
            if r is Some {
                assert(self@ =~= old(self)@.drop_first());
            }
        }
        r
    }

    /// Takes the next token; that none is left is a syntax error.
    fn advance_token(&mut self) -> (r: Result<TokenContext, ParseError>)
        ensures
            match advance(old(self)@) {
                Ok((token, rest)) => r matches Ok(found) && found@ == token && final(self)@ == rest,
                Err(e) => r matches Err(x) && x@ == e,
            },
    {
        match self.next_token() {
            Some(tok) => Ok(tok),
            None => Err(ParseError::EndOfStream),
        }
    }

    /// Takes the next token, which has to be `expected`.
    fn expect_token(&mut self, expected: Token) -> (r: Result<(), ParseError>)
        ensures
            match expect(old(self)@, expected@) {
                Ok(rest) => r is Ok && final(self)@ == rest,
                Err(e) => r matches Err(x) && x@ == e,
            },
    {
        let tok = self.advance_token()?;
        if tok.kind.same(&expected) {
            Ok(())
        } else {
            Err(ParseError::Unexpected { expected: Expected::Token(expected), found: tok })
        }
    }

    /// Parses a program: declarations up to the end of the tokens. Each starts with one
    /// of `import`, `fn`, `type` and `struct`. The first syntax error ends the parse, and
    /// no declaration is returned then.
    pub fn parse_program(&mut self) -> (r: Result<Vec<Node>, ParseError>)
        ensures
            match crate::grammar::parse_program(old(self)@, Seq::empty()) {
                Ok(nodes) => r matches Ok(found) && node_models(found@) == nodes && final(self)@.len()
                    == 0,
                Err(e) => r matches Err(x) && x@ == e,
            },
    {
        let mut nodes: Vec<Node> = Vec::new();
        proof {
            assert(node_models(nodes@) =~= Seq::<NodeModel>::empty());
        }
        loop
            invariant
                crate::grammar::parse_program(self@, node_models(nodes@))
                    == crate::grammar::parse_program(old(self)@, Seq::empty()),
            decreases self@.len(),
        {
            let ghost seen = node_models(nodes@);
            match self.next_token() {
                None => {
                    return Ok(nodes);
                },
                Some(tok) => {
                    let node = match tok.kind {
                        Token::Import => self.parse_import()?,
                        Token::Fn => self.parse_def_func()?,
                        Token::Type => self.parse_def_type()?,
                        Token::Struct => self.parse_def_struct()?,
                        _ => {
                            return Err(
                                ParseError::Unexpected { expected: Expected::Declaration, found: tok },
                            );
                        },
                    };
                    let ghost model = node@;
                    nodes.push(node);
                    proof {
                        assert(node_models(nodes@) =~= seen.push(model));
                    }
                },
            }
        }
    }

    /// Parses an import after its keyword.
    fn parse_import(&mut self) -> (r: Result<Node, ParseError>)
        ensures
            match crate::grammar::parse_import(old(self)@) {
                Ok((node, rest)) => r matches Ok(found) && found@ == node && final(self)@ == rest,
                Err(e) => r matches Err(x) && x@ == e,
            },
            r is Ok ==> final(self)@.len() < old(self)@.len(),
    {
        let tok = self.advance_token()?;
        match tok.kind {
            Token::Iden(iden) => {
                let node = ImportNode { iden };
                Ok(Node::Import(node))
            },
            _ => Err(ParseError::Unexpected { expected: Expected::ImportName, found: tok }),
        }
    }

    /// Parses the definition of a function after its keyword.
    fn parse_def_func(&mut self) -> (r: Result<Node, ParseError>)
        ensures
            match crate::grammar::parse_def_func(old(self)@) {
                Ok((node, rest)) => r matches Ok(found) && found@ == node && final(self)@ == rest,
                Err(e) => r matches Err(x) && x@ == e,
            },
            r is Ok ==> final(self)@.len() < old(self)@.len(),
    {
        let tok = self.advance_token()?;
        let iden = match tok.kind {
            Token::Iden(iden) => iden,
            _ => {
                return Err(ParseError::Unexpected { expected: Expected::FunctionName, found: tok });
            },
        };
        self.expect_token(Token::LParen)?;
        let args = self.parse_type_pairs(Token::RParen)?;
        let ret = self.parse_ret_type()?;
        let body: Vec<Node> = Vec::new();
        let node = DefFuncNode { iden, args, ret, body };
        let out = Node::DefFunc(node);
        proof {
            assert(out@->DefFunc_body =~= Seq::<NodeModel>::empty());
        }
        Ok(out)
    }

    /// Parses a list of names with their types up to the token `term`: zero or more pairs
    /// with commas between them; a comma may stand before `term`.
    fn parse_type_pairs(&mut self, term: Token) -> (r: Result<Vec<(String, TypeNode)>, ParseError>)
        ensures
            match crate::grammar::parse_type_pairs(old(self)@, term@, Seq::empty()) {
                Ok((pairs, rest)) => r matches Ok(found) && pair_models(found@) == pairs && final(self)@ == rest,
                Err(e) => r matches Err(x) && x@ == e,
            },
            r is Ok ==> final(self)@.len() < old(self)@.len(),
    {
        let mut args: Vec<(String, TypeNode)> = Vec::new();
        proof {
            assert(pair_models(args@) =~= Seq::<(Seq<char>, TypeModel)>::empty());
        }
        loop
            invariant
                crate::grammar::parse_type_pairs(self@, term@, pair_models(args@))
                    == crate::grammar::parse_type_pairs(old(self)@, term@, Seq::empty()),
                self@.len() <= old(self)@.len(),
            decreases self@.len(),
        {
            let ghost seen = pair_models(args@);
            let tok = self.advance_token()?;
            let iden_arg = match tok.kind {
                Token::Iden(iden_arg) => iden_arg,
                _ => {
                    if tok.kind.same(&term) {
                        return Ok(args);
                    } else {
                        return Err(
                            ParseError::Unexpected { expected: Expected::NameOr(term), found: tok },
                        );
                    }
                },
            };
            let type_node = self.parse_type()?;
            let ghost pair = (iden_arg@, type_node@);
            args.push((iden_arg, type_node));
            proof {
                assert(pair_models(args@) =~= seen.push(pair));
            }
            let tok = self.advance_token()?;
            match tok.kind {
                Token::Comma => {},
                _ => {
                    if tok.kind.same(&term) {
                        return Ok(args);
                    } else {
                        return Err(
                            ParseError::Unexpected { expected: Expected::CommaOr(term), found: tok },
                        );
                    }
                },
            }
        }
    }

    /// Parses an optional return type: an arrow and a type, or nothing where no arrow
    /// stands next.
    fn parse_ret_type(&mut self) -> (r: Result<Option<TypeNode>, ParseError>)
        ensures
            match crate::grammar::parse_ret_type(old(self)@) {
                Ok((ret, rest)) => r matches Ok(found) && optional_type_model(found) == ret && final(self)@ == rest,
                Err(e) => r matches Err(x) && x@ == e,
            },
            r is Ok ==> final(self)@.len() <= old(self)@.len(),
        decreases old(self)@.len(), 1nat,
    {
        let arrow = match self.peek_token() {
            Some(tok) => match tok.kind {
                Token::Arrow => true,
                _ => false,
            },
            None => false,
        };
        if arrow {
            self.consume_token();
            let type_node = self.parse_type()?;
            Ok(Some(type_node))
        } else {
            Ok(None)
        }
    }

    /// Parses a type.
    fn parse_type(&mut self) -> (r: Result<TypeNode, ParseError>)
        ensures
            match crate::grammar::parse_type(old(self)@) {
                Ok((of, rest)) => r matches Ok(found) && found@ == of && final(self)@ == rest,
                Err(e) => r matches Err(x) && x@ == e,
            },
            r is Ok ==> final(self)@.len() < old(self)@.len(),
        decreases old(self)@.len(), 0nat,
    {
        let tok = self.advance_token()?;
        match tok.kind {
            Token::Iden(iden) => Ok(TypeNode::Iden(iden)),
            Token::Fn => {
                let tok = self.advance_token()?;
                match tok.kind {
                    Token::LParen => {
                        let type_node = self.parse_fn_type()?;
                        Ok(type_node)
                    },
                    _ => Err(ParseError::Unexpected { expected: Expected::ParamTypes, found: tok }),
                }
            },
            Token::LBracket => {
                let tok = self.advance_token()?;
                match tok.kind {
                    Token::RBracket => {
                        let type_node = Box::new(self.parse_type()?);
                        Ok(TypeNode::Array(type_node))
                    },
                    _ => Err(ParseError::Unexpected { expected: Expected::ArrayBrackets, found: tok }),
                }
            },
            _ => Err(ParseError::Unexpected { expected: Expected::Type, found: tok }),
        }
    }

    /// Parses the rest of a function type after its opening parenthesis: one or more types
    /// with commas between them, the closing parenthesis, and the optional return type.
    fn parse_fn_type(&mut self) -> (r: Result<TypeNode, ParseError>)
        ensures
            match crate::grammar::parse_fn_type(old(self)@, Seq::empty()) {
                Ok((of, rest)) => r matches Ok(found) && found@ == of && final(self)@ == rest,
                Err(e) => r matches Err(x) && x@ == e,
            },
            r is Ok ==> final(self)@.len() < old(self)@.len(),
        decreases old(self)@.len(), 1nat,
    {
        let mut args: Vec<TypeNode> = Vec::new();
        proof {
            assert(type_models(args@) =~= Seq::<TypeModel>::empty());
        }
        loop
            invariant
                crate::grammar::parse_fn_type(self@, type_models(args@)) == crate::grammar::parse_fn_type(
                    old(self)@,
                    Seq::empty(),
                ),
                self@.len() <= old(self)@.len(),
            decreases self@.len(),
        {
            let ghost seen = type_models(args@);
            let type_node = self.parse_type()?;
            let ghost model = type_node@;
            args.push(type_node);
            proof {
                assert(type_models(args@) =~= seen.push(model));
            }
            let tok = self.advance_token()?;
            match tok.kind {
                Token::Comma => {},
                Token::RParen => {
                    let ret = match self.parse_ret_type()? {
                        Some(of) => Some(Box::new(of)),
                        None => None,
                    };
                    let out = TypeNode::Fn(args, ret);
                    proof {
                        assert(out@->Fn_0 =~= seen.push(model));
                    }
                    return Ok(out);
                },
                _ => {
                    return Err(
                        ParseError::Unexpected { expected: Expected::CommaOrParen, found: tok },
                    );
                },
            }
        }
    }

    /// Parses the definition of a type alias after its keyword.
    fn parse_def_type(&mut self) -> (r: Result<Node, ParseError>)
        ensures
            match crate::grammar::parse_def_type(old(self)@) {
                Ok((node, rest)) => r matches Ok(found) && found@ == node && final(self)@ == rest,
                Err(e) => r matches Err(x) && x@ == e,
            },
            r is Ok ==> final(self)@.len() < old(self)@.len(),
    {
        let tok = self.advance_token()?;
        let iden = match tok.kind {
            Token::Iden(iden) => iden,
            _ => {
                return Err(ParseError::Unexpected { expected: Expected::AliasName, found: tok });
            },
        };
        let type_node = self.parse_type()?;
        let node = DefTypeAliasNode { iden, type_node };
        Ok(Node::DefTypeAlias(node))
    }

    /// Parses the definition of a struct after its keyword.
    fn parse_def_struct(&mut self) -> (r: Result<Node, ParseError>)
        ensures
            match crate::grammar::parse_def_struct(old(self)@) {
                Ok((node, rest)) => r matches Ok(found) && found@ == node && final(self)@ == rest,
                Err(e) => r matches Err(x) && x@ == e,
            },
            r is Ok ==> final(self)@.len() < old(self)@.len(),
    {
        let tok = self.advance_token()?;
        let iden = match tok.kind {
            Token::Iden(iden) => iden,
            _ => {
                return Err(ParseError::Unexpected { expected: Expected::StructName, found: tok });
            },
        };
        self.expect_token(Token::LBrace)?;
        let fields = self.parse_type_pairs(Token::RBrace)?;
        let node = DefStructNode { iden, fields };
        Ok(Node::DefStruct(node))
    }

    /// Parses an expression: a unary expression and the binary operators with their
    /// operands that follow it. The logical operators bind most loosely, then the
    /// comparisons, then `+` and `-`, then `*` and `/`, then `**`; `**` groups to the
    /// right, the others to the left. The tokens after the expression stay.
    pub fn parse_expr(&mut self) -> (r: Result<Node, ParseError>)
        ensures
            match crate::grammar::parse_expr(old(self)@) {
                Ok((node, rest)) => r matches Ok(found) && found@ == node && final(self)@ == rest,
                Err(e) => r matches Err(x) && x@ == e,
            },
            r is Ok ==> final(self)@.len() < old(self)@.len(),
    {
        self.parse_binary(1)
    }

    /// The binary operator that stands next, with its precedence, if one stands next.
    fn peek_binary(&self) -> (r: Option<(Bop, u8)>)
        ensures
            match r {
                Some((op, level)) => self@.len() > 0 && binary_operator(self@[0].kind) == Some(op)
                    && level == precedence(op),
                None => self@.len() == 0 || binary_operator(self@[0].kind) is None,
            },
    {
        match self.peek_token() {
            Some(tok) => match tok.kind {
                Token::Operator(op) => match op {
                    Op::Or => Some((Bop::Or, 1)),
                    Op::And => Some((Bop::And, 1)),
                    Op::Eq => Some((Bop::Eq, 2)),
                    Op::Neq => Some((Bop::Neq, 2)),
                    Op::Leq => Some((Bop::Leq, 2)),
                    Op::Geq => Some((Bop::Geq, 2)),
                    Op::Lt => Some((Bop::Lt, 2)),
                    Op::Gt => Some((Bop::Gt, 2)),
                    Op::Plus => Some((Bop::Plus, 3)),
                    Op::Minus => Some((Bop::Minus, 3)),
                    Op::Multiply => Some((Bop::Multiply, 4)),
                    Op::Divide => Some((Bop::Divide, 4)),
                    Op::Exp => Some((Bop::Exp, 5)),
                    Op::Not => None,
                },
                _ => None,
            },
            None => None,
        }
    }

    /// The unary operator that stands next, if one stands next.
    fn peek_unary(&self) -> (r: Option<Uop>)
        ensures
            r is Some ==> self@.len() > 0,
            self@.len() > 0 ==> r == unary_operator(self@[0].kind),
            self@.len() == 0 ==> r is None,
    {
        match self.peek_token() {
            Some(tok) => match tok.kind {
                Token::Operator(op) => match op {
                    Op::Not => Some(Uop::Not),
                    Op::Minus => Some(Uop::Minus),
                    _ => None,
                },
                _ => None,
            },
            None => None,
        }
    }

    /// Whether the token `token` stands next.
    fn peek_is(&self, token: &Token) -> (r: bool)
        ensures
            r == (self@.len() > 0 && self@[0].kind == token@),
    {
        match self.peek_token() {
            Some(tok) => tok.kind.same(token),
            None => false,
        }
    }

    /// Parses an expression in which every binary operator outside parentheses and
    /// brackets has at least the precedence `min`.
    fn parse_binary(&mut self, min: u8) -> (r: Result<Node, ParseError>)
        ensures
            match crate::grammar::parse_binary(old(self)@, min as nat) {
                Ok((node, rest)) => r matches Ok(found) && found@ == node && final(self)@ == rest,
                Err(e) => r matches Err(x) && x@ == e,
            },
            r is Ok ==> final(self)@.len() < old(self)@.len(),
        decreases old(self)@.len(), 2nat,
    {
        let mut lhs = self.parse_unary()?;
        loop
            invariant
                climb(self@, lhs@, min as nat) == crate::grammar::parse_binary(old(self)@, min as nat),
                self@.len() < old(self)@.len(),
            decreases self@.len(),
        {
            let (op, level) = match self.peek_binary() {
                Some(found) => found,
                None => {
                    return Ok(lhs);
                },
            };
            if level < min {
                return Ok(lhs);
            }
            self.consume_token();
            let inner: u8 = match op {
                Bop::Exp => level,
                _ => level + 1,
            };
            let rhs = self.parse_binary(inner)?;
            lhs = Node::Binop(BinopNode { op, lhs: Box::new(lhs), rhs: Box::new(rhs) });
        }
    }

    /// Parses a unary expression: `!` or `-` before a unary expression, or a primary
    /// expression.
    fn parse_unary(&mut self) -> (r: Result<Node, ParseError>)
        ensures
            match crate::grammar::parse_unary(old(self)@) {
                Ok((node, rest)) => r matches Ok(found) && found@ == node && final(self)@ == rest,
                Err(e) => r matches Err(x) && x@ == e,
            },
            r is Ok ==> final(self)@.len() < old(self)@.len(),
        decreases old(self)@.len(), 1nat,
    {
        match self.peek_unary() {
            Some(op) => {
                self.consume_token();
                let expr = self.parse_unary()?;
                Ok(Node::Unop(UnopNode { op, expr: Box::new(expr) }))
            },
            None => self.parse_primary(),
        }
    }

    /// Parses a primary expression: a literal, a variable, a call, an expression in
    /// parentheses, a tuple or an array.
    fn parse_primary(&mut self) -> (r: Result<Node, ParseError>)
        ensures
            match crate::grammar::parse_primary(old(self)@) {
                Ok((node, rest)) => r matches Ok(found) && found@ == node && final(self)@ == rest,
                Err(e) => r matches Err(x) && x@ == e,
            },
            r is Ok ==> final(self)@.len() < old(self)@.len(),
        decreases old(self)@.len(), 0nat,
    {
        let tok = self.advance_token()?;
        match tok.kind {
            Token::IntLit(n) => Ok(Node::Constant(Const::Int(n))),
            Token::FloatLit(bits) => Ok(Node::Constant(Const::Float(bits))),
            Token::CharLit(c) => Ok(Node::Constant(Const::Char(c))),
            Token::StrLit(s) => Ok(Node::Constant(Const::String(s))),
            Token::True => Ok(Node::Constant(Const::Bool(true))),
            Token::False => Ok(Node::Constant(Const::Bool(false))),
            Token::Iden(iden) => {
                if self.peek_is(&Token::LParen) {
                    self.consume_token();
                    let none: Vec<Node> = Vec::new();
                    proof {
                        assert(node_models(none@) =~= Seq::<NodeModel>::empty());
                    }
                    let args = self.parse_list(Token::RParen, none)?;
                    let out = Node::CallFunc(FuncNode { iden, args });
                    proof {
                        assert(out@->CallFunc_args =~= node_models(args@));
                    }
                    Ok(out)
                } else {
                    Ok(Node::Variable(iden))
                }
            },
            Token::LParen => {
                if self.peek_is(&Token::RParen) {
                    self.consume_token();
                    let out = Node::Tuple(Vec::new());
                    proof {
                        assert(out@->Tuple_0 =~= Seq::<NodeModel>::empty());
                    }
                    return Ok(out);
                }
                let inner = self.parse_binary(1)?;
                let sep = self.advance_token()?;
                match sep.kind {
                    Token::RParen => Ok(inner),
                    Token::Comma => {
                        let ghost first = inner@;
                        let mut items: Vec<Node> = Vec::new();
                        items.push(inner);
                        proof {
                            assert(node_models(items@) =~= seq![first]);
                        }
                        let items = self.parse_list(Token::RParen, items)?;
                        let out = Node::Tuple(items);
                        proof {
                            assert(out@->Tuple_0 =~= node_models(items@));
                        }
                        Ok(out)
                    },
                    _ => Err(
                        ParseError::Unexpected {
                            expected: Expected::CommaOr(Token::RParen),
                            found: sep,
                        },
                    ),
                }
            },
            Token::LBracket => {
                let none: Vec<Node> = Vec::new();
                proof {
                    assert(node_models(none@) =~= Seq::<NodeModel>::empty());
                }
                let items = self.parse_list(Token::RBracket, none)?;
                let out = Node::Array(items);
                proof {
                    assert(out@->Array_0 =~= node_models(items@));
                }
                Ok(out)
            },
            _ => Err(ParseError::Unexpected { expected: Expected::Expression, found: tok }),
        }
    }

    /// Parses the rest of a list of expressions after the items `first`, up to the token
    /// `term`: zero or more expressions with commas between them; a comma may stand
    /// before `term`.
    fn parse_list(&mut self, term: Token, first: Vec<Node>) -> (r: Result<Vec<Node>, ParseError>)
        ensures
            match crate::grammar::parse_list(old(self)@, term@, node_models(first@)) {
                Ok((all, rest)) => r matches Ok(found) && node_models(found@) == all && final(self)@
                    == rest,
                Err(e) => r matches Err(x) && x@ == e,
            },
            r is Ok ==> final(self)@.len() < old(self)@.len(),
        decreases old(self)@.len(), 3nat,
    {
        let ghost given = node_models(first@);
        let mut items = first;
        loop
            invariant
                given == node_models(first@),
                crate::grammar::parse_list(self@, term@, node_models(items@))
                    == crate::grammar::parse_list(old(self)@, term@, given),
                self@.len() <= old(self)@.len(),
            decreases self@.len(),
        {
            if self.peek_is(&term) {
                self.consume_token();
                return Ok(items);
            }
            let ghost seen = node_models(items@);
            let item = self.parse_binary(1)?;
            let ghost model = item@;
            items.push(item);
            proof {
                assert(node_models(items@) =~= seen.push(model));
            }
            let sep = self.advance_token()?;
            match sep.kind {
                Token::Comma => {},
                _ => {
                    if sep.kind.same(&term) {
                        return Ok(items);
                    } else {
                        return Err(
                            ParseError::Unexpected { expected: Expected::CommaOr(term), found: sep },
                        );
                    }
                },
            }
        }
    }
}

} // verus!
