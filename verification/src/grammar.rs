//! What the parser makes of a sequence of tokens, stated as functions of the sequence.
//!
//! Each function takes the tokens that are left and gives what it parsed together with
//! the tokens that are left after it, or the syntax error.

use vstd::prelude::*;
use crate::node::Bop;
use crate::node::ConstModel;
use crate::node::NodeModel;
use crate::node::TypeModel;
use crate::node::Uop;
use crate::token::Op;
use crate::token::TokenContextModel;
use crate::token::TokenModel;

verus! {

/// What the parser expected where it found another token.
pub ghost enum ExpectedModel {
    /// One of `import`, `fn`, `type` and `struct`, which start a declaration.
    Declaration,
    /// The identifier that an import names.
    ImportName,
    /// The name of a function.
    FunctionName,
    /// The name of a type alias.
    AliasName,
    /// The name of a struct.
    StructName,
    /// The given token.
    Token(TokenModel),
    /// A name, or the given token, which ends a list of names with their types.
    NameOr(TokenModel),
    /// A comma, or the given token, which ends a list of names with their types.
    CommaOr(TokenModel),
    /// The parenthesis that opens the parameter types of a function type.
    ParamTypes,
    /// The bracket that closes the brackets of an array type.
    ArrayBrackets,
    /// An identifier, `fn` or a bracket, which start a type.
    Type,
    /// A comma or the parenthesis that closes the parameter types of a function type.
    CommaOrParen,
    /// A literal, an identifier, a parenthesis, a bracket, `!` or `-`, which start an
    /// expression.
    Expression,
}

/// A syntax error.
pub ghost enum ParseErrorModel {
    /// The tokens ended where one more was expected.
    EndOfStream,
    /// A token stands where something else was expected.
    Unexpected { expected: ExpectedModel, found: TokenContextModel },
}

/// The next token and the tokens after it.
pub open spec fn advance(tokens: Seq<TokenContextModel>) -> Result<
    (TokenContextModel, Seq<TokenContextModel>),
    ParseErrorModel,
> {
    if tokens.len() == 0 {
        Err(ParseErrorModel::EndOfStream)
    } else {
        Ok((tokens[0], tokens.drop_first()))
    }
}

/// The tokens after the next token, which has to be `expected`.
pub open spec fn expect(tokens: Seq<TokenContextModel>, expected: TokenModel) -> Result<
    Seq<TokenContextModel>,
    ParseErrorModel,
> {
    match advance(tokens) {
        Err(e) => Err(e),
        Ok((found, rest)) => if found.kind == expected {
            Ok(rest)
        } else {
            Err(ParseErrorModel::Unexpected { expected: ExpectedModel::Token(expected), found })
        },
    }
}

/// A type: an identifier names a type, `fn (` starts a function type, and `[ ]` stands
/// before the element type of an array type.
pub open spec fn parse_type(tokens: Seq<TokenContextModel>) -> Result<
    (TypeModel, Seq<TokenContextModel>),
    ParseErrorModel,
>
    decreases tokens.len(), 0nat,
{
    match advance(tokens) {
        Err(e) => Err(e),
        Ok((first, rest)) => match first.kind {
            TokenModel::Iden(name) => Ok((TypeModel::Iden(name), rest)),
            TokenModel::Fn => match advance(rest) {
                Err(e) => Err(e),
                Ok((second, rest)) => if second.kind is LParen {
                    parse_fn_type(rest, Seq::empty())
                } else {
                    Err(
                        ParseErrorModel::Unexpected {
                            expected: ExpectedModel::ParamTypes,
                            found: second,
                        },
                    )
                },
            },
            TokenModel::LBracket => match advance(rest) {
                Err(e) => Err(e),
                Ok((second, rest)) => if second.kind is RBracket {
                    match parse_type(rest) {
                        Err(e) => Err(e),
                        Ok((of, rest)) => Ok((TypeModel::Array(Box::new(of)), rest)),
                    }
                } else {
                    Err(
                        ParseErrorModel::Unexpected {
                            expected: ExpectedModel::ArrayBrackets,
                            found: second,
                        },
                    )
                },
            },
            _ => Err(ParseErrorModel::Unexpected { expected: ExpectedModel::Type, found: first }),
        },
    }
}

/// The rest of a function type after its opening parenthesis and the parameter types
/// `args`: one or more types with commas between them, the closing parenthesis, and the
/// optional return type.
pub open spec fn parse_fn_type(tokens: Seq<TokenContextModel>, args: Seq<TypeModel>) -> Result<
    (TypeModel, Seq<TokenContextModel>),
    ParseErrorModel,
>
    decreases tokens.len(), 1nat,
{
    match parse_type(tokens) {
        Err(e) => Err(e),
        Ok((arg, rest)) => match advance(rest) {
            Err(e) => Err(e),
            Ok((sep, rest)) => if rest.len() >= tokens.len() {
                Err(ParseErrorModel::EndOfStream)
            } else if sep.kind is Comma {
                parse_fn_type(rest, args.push(arg))
            } else if sep.kind is RParen {
                match parse_ret_type(rest) {
                    Err(e) => Err(e),
                    Ok((ret, rest)) => Ok(
                        (
                            TypeModel::Fn(
                                args.push(arg),
                                match ret {
                                    Some(of) => Some(Box::new(of)),
                                    None => None,
                                },
                            ),
                            rest,
                        ),
                    ),
                }
            } else {
                Err(
                    ParseErrorModel::Unexpected {
                        expected: ExpectedModel::CommaOrParen,
                        found: sep,
                    },
                )
            },
        },
    }
}

/// An optional return type: an arrow and a type, or nothing where no arrow stands next.
pub open spec fn parse_ret_type(tokens: Seq<TokenContextModel>) -> Result<
    (Option<TypeModel>, Seq<TokenContextModel>),
    ParseErrorModel,
>
    decreases tokens.len(), 1nat,
{
    if tokens.len() > 0 && tokens[0].kind is Arrow {
        match parse_type(tokens.drop_first()) {
            Err(e) => Err(e),
            Ok((of, rest)) => Ok((Some(of), rest)),
        }
    } else {
        Ok((None, tokens))
    }
}

/// The rest of a list of names with their types after the pairs `pairs`: zero or more
/// pairs with commas between them, up to the token `term`, which may follow a comma.
pub open spec fn parse_type_pairs(
    tokens: Seq<TokenContextModel>,
    term: TokenModel,
    pairs: Seq<(Seq<char>, TypeModel)>,
) -> Result<(Seq<(Seq<char>, TypeModel)>, Seq<TokenContextModel>), ParseErrorModel>
    decreases tokens.len(),
{
    match advance(tokens) {
        Err(e) => Err(e),
        Ok((first, rest)) => match first.kind {
            TokenModel::Iden(name) => match parse_type(rest) {
                Err(e) => Err(e),
                Ok((of, rest)) => match advance(rest) {
                    Err(e) => Err(e),
                    Ok((sep, rest)) => if rest.len() >= tokens.len() {
                        Err(ParseErrorModel::EndOfStream)
                    } else if sep.kind is Comma {
                        parse_type_pairs(rest, term, pairs.push((name, of)))
                    } else if sep.kind == term {
                        Ok((pairs.push((name, of)), rest))
                    } else {
                        Err(
                            ParseErrorModel::Unexpected {
                                expected: ExpectedModel::CommaOr(term),
                                found: sep,
                            },
                        )
                    },
                },
            },
            _ => if first.kind == term {
                Ok((pairs, rest))
            } else {
                Err(
                    ParseErrorModel::Unexpected {
                        expected: ExpectedModel::NameOr(term),
                        found: first,
                    },
                )
            },
        },
    }
}

/// An import after its keyword: the identifier that is imported.
pub open spec fn parse_import(tokens: Seq<TokenContextModel>) -> Result<
    (NodeModel, Seq<TokenContextModel>),
    ParseErrorModel,
> {
    match advance(tokens) {
        Err(e) => Err(e),
        Ok((first, rest)) => match first.kind {
            TokenModel::Iden(iden) => Ok((NodeModel::Import { iden }, rest)),
            _ => Err(
                ParseErrorModel::Unexpected { expected: ExpectedModel::ImportName, found: first },
            ),
        },
    }
}

/// The definition of a function after its keyword: the name, the parameters with their
/// types in parentheses, and the optional return type. The body is empty.
pub open spec fn parse_def_func(tokens: Seq<TokenContextModel>) -> Result<
    (NodeModel, Seq<TokenContextModel>),
    ParseErrorModel,
> {
    match advance(tokens) {
        Err(e) => Err(e),
        Ok((first, rest)) => match first.kind {
            TokenModel::Iden(iden) => match expect(rest, TokenModel::LParen) {
                Err(e) => Err(e),
                Ok(rest) => match parse_type_pairs(rest, TokenModel::RParen, Seq::empty()) {
                    Err(e) => Err(e),
                    Ok((args, rest)) => match parse_ret_type(rest) {
                        Err(e) => Err(e),
                        Ok((ret, rest)) => Ok(
                            (NodeModel::DefFunc { iden, args, ret, body: Seq::empty() }, rest),
                        ),
                    },
                },
            },
            _ => Err(
                ParseErrorModel::Unexpected { expected: ExpectedModel::FunctionName, found: first },
            ),
        },
    }
}

/// The definition of a type alias after its keyword: the name, and the type it stands
/// for.
pub open spec fn parse_def_type(tokens: Seq<TokenContextModel>) -> Result<
    (NodeModel, Seq<TokenContextModel>),
    ParseErrorModel,
> {
    match advance(tokens) {
        Err(e) => Err(e),
        Ok((first, rest)) => match first.kind {
            TokenModel::Iden(iden) => match parse_type(rest) {
                Err(e) => Err(e),
                Ok((type_node, rest)) => Ok((NodeModel::DefTypeAlias { iden, type_node }, rest)),
            },
            _ => Err(
                ParseErrorModel::Unexpected { expected: ExpectedModel::AliasName, found: first },
            ),
        },
    }
}

/// The definition of a struct after its keyword: the name, and the fields with their
/// types in braces.
pub open spec fn parse_def_struct(tokens: Seq<TokenContextModel>) -> Result<
    (NodeModel, Seq<TokenContextModel>),
    ParseErrorModel,
> {
    match advance(tokens) {
        Err(e) => Err(e),
        Ok((first, rest)) => match first.kind {
            TokenModel::Iden(iden) => match expect(rest, TokenModel::LBrace) {
                Err(e) => Err(e),
                Ok(rest) => match parse_type_pairs(rest, TokenModel::RBrace, Seq::empty()) {
                    Err(e) => Err(e),
                    Ok((fields, rest)) => Ok((NodeModel::DefStruct { iden, fields }, rest)),
                },
            },
            _ => Err(
                ParseErrorModel::Unexpected { expected: ExpectedModel::StructName, found: first },
            ),
        },
    }
}

/// The declaration that the keyword `first` starts, parsed from the tokens after the
/// keyword.
pub open spec fn parse_declaration(first: TokenContextModel, rest: Seq<TokenContextModel>) -> Result<
    (NodeModel, Seq<TokenContextModel>),
    ParseErrorModel,
> {
    match first.kind {
        TokenModel::Import => parse_import(rest),
        TokenModel::Fn => parse_def_func(rest),
        TokenModel::Type => parse_def_type(rest),
        TokenModel::Struct => parse_def_struct(rest),
        _ => Err(ParseErrorModel::Unexpected { expected: ExpectedModel::Declaration, found: first }),
    }
}

/// The declarations of a program after the declarations `nodes`, up to the end of the
/// tokens, or the first syntax error.
pub open spec fn parse_program(tokens: Seq<TokenContextModel>, nodes: Seq<NodeModel>) -> Result<
    Seq<NodeModel>,
    ParseErrorModel,
>
    decreases tokens.len(),
{
    if tokens.len() == 0 {
        Ok(nodes)
    } else {
        match parse_declaration(tokens[0], tokens.drop_first()) {
            Err(e) => Err(e),
            Ok((node, rest)) => if rest.len() >= tokens.len() {
                Err(ParseErrorModel::EndOfStream)
            } else {
                parse_program(rest, nodes.push(node))
            },
        }
    }
}

/// The binary operator that a token is, if it is one.
pub open spec fn binary_operator(kind: TokenModel) -> Option<Bop> {
    match kind {
        TokenModel::Operator(op) => match op {
            Op::Plus => Some(Bop::Plus),
            Op::Exp => Some(Bop::Exp),
            Op::Minus => Some(Bop::Minus),
            Op::Multiply => Some(Bop::Multiply),
            Op::Divide => Some(Bop::Divide),
            Op::Eq => Some(Bop::Eq),
            Op::Neq => Some(Bop::Neq),
            Op::Leq => Some(Bop::Leq),
            Op::Geq => Some(Bop::Geq),
            Op::Lt => Some(Bop::Lt),
            Op::Gt => Some(Bop::Gt),
            Op::And => Some(Bop::And),
            Op::Or => Some(Bop::Or),
            Op::Not => None,
        },
        _ => None,
    }
}

/// The unary operator that a token is, if it is one.
pub open spec fn unary_operator(kind: TokenModel) -> Option<Uop> {
    match kind {
        TokenModel::Operator(Op::Not) => Some(Uop::Not),
        TokenModel::Operator(Op::Minus) => Some(Uop::Minus),
        _ => None,
    }
}

/// How tightly a binary operator binds, from 1 for the loosest: the logical operators,
/// then the comparisons, then `+` and `-`, then `*` and `/`, then `**`.
pub open spec fn precedence(op: Bop) -> nat {
    match op {
        Bop::Or => 1,
        Bop::And => 1,
        Bop::Eq => 2,
        Bop::Neq => 2,
        Bop::Leq => 2,
        Bop::Geq => 2,
        Bop::Lt => 2,
        Bop::Gt => 2,
        Bop::Plus => 3,
        Bop::Minus => 3,
        Bop::Multiply => 4,
        Bop::Divide => 4,
        Bop::Exp => 5,
    }
}

/// The least precedence that an operator may have in the right operand of `op`: `**`
/// groups to the right and takes itself there, the other operators group to the left and
/// take only what binds more tightly.
pub open spec fn operand_precedence(op: Bop) -> nat {
    if op is Exp {
        precedence(op)
    } else {
        precedence(op) + 1
    }
}

/// The constant that a literal token is, if it is one.
pub open spec fn literal(kind: TokenModel) -> Option<ConstModel> {
    match kind {
        TokenModel::IntLit(n) => Some(ConstModel::Int(n)),
        TokenModel::FloatLit(bits) => Some(ConstModel::Float(bits)),
        TokenModel::CharLit(c) => Some(ConstModel::Char(c)),
        TokenModel::StrLit(s) => Some(ConstModel::String(s)),
        TokenModel::True => Some(ConstModel::Bool(true)),
        TokenModel::False => Some(ConstModel::Bool(false)),
        _ => None,
    }
}

/// A primary expression: a literal; an identifier, which is a call where a parenthesis
/// follows it and a variable otherwise; an expression in parentheses; a tuple, which is
/// `()` or has a comma after its first item; or an array in brackets.
pub open spec fn parse_primary(tokens: Seq<TokenContextModel>) -> Result<
    (NodeModel, Seq<TokenContextModel>),
    ParseErrorModel,
>
    decreases tokens.len(), 0nat,
{
    match advance(tokens) {
        Err(e) => Err(e),
        Ok((first, rest)) => match first.kind {
            TokenModel::Iden(iden) => if rest.len() > 0 && rest[0].kind is LParen {
                match parse_list(rest.drop_first(), TokenModel::RParen, Seq::empty()) {
                    Err(e) => Err(e),
                    Ok((args, rest)) => Ok((NodeModel::CallFunc { iden, args }, rest)),
                }
            } else {
                Ok((NodeModel::Variable(iden), rest))
            },
            TokenModel::LParen => if rest.len() > 0 && rest[0].kind is RParen {
                Ok((NodeModel::Tuple(Seq::empty()), rest.drop_first()))
            } else {
                match parse_binary(rest, 1) {
                    Err(e) => Err(e),
                    Ok((inner, rest)) => match advance(rest) {
                        Err(e) => Err(e),
                        Ok((sep, rest)) => if rest.len() >= tokens.len() {
                            Err(ParseErrorModel::EndOfStream)
                        } else if sep.kind is RParen {
                            Ok((inner, rest))
                        } else if sep.kind is Comma {
                            match parse_list(rest, TokenModel::RParen, seq![inner]) {
                                Err(e) => Err(e),
                                Ok((items, rest)) => Ok((NodeModel::Tuple(items), rest)),
                            }
                        } else {
                            Err(
                                ParseErrorModel::Unexpected {
                                    expected: ExpectedModel::CommaOr(TokenModel::RParen),
                                    found: sep,
                                },
                            )
                        },
                    },
                }
            },
            TokenModel::LBracket => match parse_list(rest, TokenModel::RBracket, Seq::empty()) {
                Err(e) => Err(e),
                Ok((items, rest)) => Ok((NodeModel::Array(items), rest)),
            },
            _ => match literal(first.kind) {
                Some(value) => Ok((NodeModel::Constant(value), rest)),
                None => Err(
                    ParseErrorModel::Unexpected { expected: ExpectedModel::Expression, found: first },
                ),
            },
        },
    }
}

/// A unary expression: `!` or `-` before a unary expression, or a primary expression.
pub open spec fn parse_unary(tokens: Seq<TokenContextModel>) -> Result<
    (NodeModel, Seq<TokenContextModel>),
    ParseErrorModel,
>
    decreases tokens.len(), 1nat,
{
    if tokens.len() > 0 && unary_operator(tokens[0].kind) is Some {
        match parse_unary(tokens.drop_first()) {
            Err(e) => Err(e),
            Ok((expr, rest)) => Ok(
                (NodeModel::Unop { op: unary_operator(tokens[0].kind)->0, expr: Box::new(expr) }, rest),
            ),
        }
    } else {
        parse_primary(tokens)
    }
}

/// An expression in which every binary operator outside parentheses and brackets has at
/// least the precedence `min`: a unary expression, and the operators and operands that
/// follow it.
pub open spec fn parse_binary(tokens: Seq<TokenContextModel>, min: nat) -> Result<
    (NodeModel, Seq<TokenContextModel>),
    ParseErrorModel,
>
    decreases tokens.len(), 2nat,
{
    match parse_unary(tokens) {
        Err(e) => Err(e),
        Ok((lhs, rest)) => if rest.len() >= tokens.len() {
            Err(ParseErrorModel::EndOfStream)
        } else {
            climb(rest, lhs, min)
        },
    }
}

/// The expression that `lhs` grows into by the binary operators of at least the
/// precedence `min` that follow it: each takes what has been built as its left operand,
/// and as its right operand an expression of [`operand_precedence`].
pub open spec fn climb(tokens: Seq<TokenContextModel>, lhs: NodeModel, min: nat) -> Result<
    (NodeModel, Seq<TokenContextModel>),
    ParseErrorModel,
>
    decreases tokens.len(), 3nat,
{
    if tokens.len() > 0 && binary_operator(tokens[0].kind) is Some && precedence(
        binary_operator(tokens[0].kind)->0,
    ) >= min {
        let op = binary_operator(tokens[0].kind)->0;
        match parse_binary(tokens.drop_first(), operand_precedence(op)) {
            Err(e) => Err(e),
            Ok((rhs, rest)) => if rest.len() >= tokens.len() {
                Err(ParseErrorModel::EndOfStream)
            } else {
                climb(rest, NodeModel::Binop { op, lhs: Box::new(lhs), rhs: Box::new(rhs) }, min)
            },
        }
    } else {
        Ok((lhs, tokens))
    }
}

/// The rest of a list of expressions after the items `items`: zero or more expressions
/// with commas between them, up to the token `term`, which may follow a comma.
pub open spec fn parse_list(
    tokens: Seq<TokenContextModel>,
    term: TokenModel,
    items: Seq<NodeModel>,
) -> Result<(Seq<NodeModel>, Seq<TokenContextModel>), ParseErrorModel>
    decreases tokens.len(), 3nat,
{
    if tokens.len() > 0 && tokens[0].kind == term {
        Ok((items, tokens.drop_first()))
    } else {
        match parse_binary(tokens, 1) {
            Err(e) => Err(e),
            Ok((item, rest)) => match advance(rest) {
                Err(e) => Err(e),
                Ok((sep, rest)) => if rest.len() >= tokens.len() {
                    Err(ParseErrorModel::EndOfStream)
                } else if sep.kind is Comma {
                    parse_list(rest, term, items.push(item))
                } else if sep.kind == term {
                    Ok((items.push(item), rest))
                } else {
                    Err(
                        ParseErrorModel::Unexpected {
                            expected: ExpectedModel::CommaOr(term),
                            found: sep,
                        },
                    )
                },
            },
        }
    }
}

/// An expression: a unary expression and the binary operators with their operands that
/// follow it, grouped by precedence.
pub open spec fn parse_expr(tokens: Seq<TokenContextModel>) -> Result<
    (NodeModel, Seq<TokenContextModel>),
    ParseErrorModel,
> {
    parse_binary(tokens, 1)
}

/// What is left after a successful parse, if anything was parsed with success.
pub open spec fn left_after<T>(r: Result<(T, Seq<TokenContextModel>), ParseErrorModel>) -> Option<
    Seq<TokenContextModel>,
> {
    match r {
        Ok((_, rest)) => Some(rest),
        Err(_) => None,
    }
}

/// Whether a parse of `tokens` with the outcome `r`, where it succeeded, took at least
/// one token.
pub open spec fn consumes<T>(
    tokens: Seq<TokenContextModel>,
    r: Result<(T, Seq<TokenContextModel>), ParseErrorModel>,
) -> bool {
    left_after(r) matches Some(rest) ==> rest.len() < tokens.len()
}

/// A type takes at least one token. So the branch of the grammar that ends a function type
/// where it made no progress is never taken.
pub proof fn lemma_type_consumes(tokens: Seq<TokenContextModel>)
    ensures
        consumes(tokens, parse_type(tokens)),
    decreases tokens.len(), 0nat,
{
    if tokens.len() > 0 {
        let rest = tokens.drop_first();
        if rest.len() > 0 {
            lemma_fn_type_consumes(rest.drop_first(), Seq::empty());
            lemma_type_consumes(rest.drop_first());
        }
    }
}

/// The rest of a function type takes at least one token.
pub proof fn lemma_fn_type_consumes(tokens: Seq<TokenContextModel>, args: Seq<TypeModel>)
    ensures
        consumes(tokens, parse_fn_type(tokens, args)),
    decreases tokens.len(), 1nat,
{
    lemma_type_consumes(tokens);
    if let Ok((arg, rest)) = parse_type(tokens) {
        if let Ok((sep, rest)) = advance(rest) {
            lemma_fn_type_consumes(rest, args.push(arg));
            lemma_ret_type_consumes(rest);
        }
    }
}

/// An optional return type takes no token or more.
pub proof fn lemma_ret_type_consumes(tokens: Seq<TokenContextModel>)
    ensures
        left_after(parse_ret_type(tokens)) matches Some(rest) ==> rest.len() <= tokens.len(),
    decreases tokens.len(), 1nat,
{
    if tokens.len() > 0 {
        lemma_type_consumes(tokens.drop_first());
    }
}

/// A list of names with their types takes at least one token. So the branch of the grammar
/// that ends the list where it made no progress is never taken.
pub proof fn lemma_type_pairs_consumes(
    tokens: Seq<TokenContextModel>,
    term: TokenModel,
    pairs: Seq<(Seq<char>, TypeModel)>,
)
    ensures
        consumes(tokens, parse_type_pairs(tokens, term, pairs)),
    decreases tokens.len(),
{
    if let Ok((first, rest)) = advance(tokens) {
        if let TokenModel::Iden(name) = first.kind {
            lemma_type_consumes(rest);
            if let Ok((of, rest)) = parse_type(rest) {
                if let Ok((sep, rest)) = advance(rest) {
                    lemma_type_pairs_consumes(rest, term, pairs.push((name, of)));
                }
            }
        }
    }
}

/// A declaration takes at least one token after its keyword. So the branch of the grammar
/// that ends a program where it made no progress is never taken.
pub proof fn lemma_declaration_consumes(first: TokenContextModel, rest: Seq<TokenContextModel>)
    ensures
        left_after(parse_declaration(first, rest)) matches Some(after) ==> after.len() < rest.len(),
{
    if rest.len() > 0 {
        let after_name = rest.drop_first();
        lemma_type_consumes(after_name);
        if after_name.len() > 0 {
            lemma_type_pairs_consumes(after_name.drop_first(), TokenModel::RParen, Seq::empty());
            lemma_type_pairs_consumes(after_name.drop_first(), TokenModel::RBrace, Seq::empty());
            if let Ok((args, rest)) = parse_type_pairs(
                after_name.drop_first(),
                TokenModel::RParen,
                Seq::empty(),
            ) {
                lemma_ret_type_consumes(rest);
            }
        }
    }
}

/// A primary expression takes at least one token.
pub proof fn lemma_primary_consumes(tokens: Seq<TokenContextModel>)
    ensures
        consumes(tokens, parse_primary(tokens)),
    decreases tokens.len(), 0nat,
{
    if let Ok((first, rest)) = advance(tokens) {
        if rest.len() > 0 {
            lemma_list_consumes(rest.drop_first(), TokenModel::RParen, Seq::empty());
        }
        lemma_list_consumes(rest, TokenModel::RBracket, Seq::empty());
        lemma_binary_consumes(rest, 1);
        if let Ok((inner, rest)) = parse_binary(rest, 1) {
            if let Ok((sep, rest)) = advance(rest) {
                lemma_list_consumes(rest, TokenModel::RParen, seq![inner]);
            }
        }
    }
}

/// A unary expression takes at least one token.
pub proof fn lemma_unary_consumes(tokens: Seq<TokenContextModel>)
    ensures
        consumes(tokens, parse_unary(tokens)),
    decreases tokens.len(), 1nat,
{
    if tokens.len() > 0 && unary_operator(tokens[0].kind) is Some {
        lemma_unary_consumes(tokens.drop_first());
    } else {
        lemma_primary_consumes(tokens);
    }
}

/// An expression takes at least one token. So the branches of the grammar that end an
/// expression or a list where they made no progress are never taken.
pub proof fn lemma_binary_consumes(tokens: Seq<TokenContextModel>, min: nat)
    ensures
        consumes(tokens, parse_binary(tokens, min)),
    decreases tokens.len(), 2nat,
{
    lemma_unary_consumes(tokens);
    if let Ok((lhs, rest)) = parse_unary(tokens) {
        lemma_climb_consumes(rest, lhs, min);
    }
}

/// The operators and operands that follow an expression take no token or more.
pub proof fn lemma_climb_consumes(tokens: Seq<TokenContextModel>, lhs: NodeModel, min: nat)
    ensures
        left_after(climb(tokens, lhs, min)) matches Some(rest) ==> rest.len() <= tokens.len(),
    decreases tokens.len(), 3nat,
{
    if tokens.len() > 0 && binary_operator(tokens[0].kind) is Some && precedence(
        binary_operator(tokens[0].kind)->0,
    ) >= min {
        let op = binary_operator(tokens[0].kind)->0;
        lemma_binary_consumes(tokens.drop_first(), operand_precedence(op));
        if let Ok((rhs, rest)) = parse_binary(tokens.drop_first(), operand_precedence(op)) {
            lemma_climb_consumes(
                rest,
                NodeModel::Binop { op, lhs: Box::new(lhs), rhs: Box::new(rhs) },
                min,
            );
        }
    }
}

/// A list of expressions takes at least one token.
pub proof fn lemma_list_consumes(
    tokens: Seq<TokenContextModel>,
    term: TokenModel,
    items: Seq<NodeModel>,
)
    ensures
        consumes(tokens, parse_list(tokens, term, items)),
    decreases tokens.len(), 3nat,
{
    if !(tokens.len() > 0 && tokens[0].kind == term) {
        lemma_binary_consumes(tokens, 1);
        if let Ok((item, rest)) = parse_binary(tokens, 1) {
            if let Ok((sep, rest)) = advance(rest) {
                lemma_list_consumes(rest, term, items.push(item));
            }
        }
    }
}

/// The binary operation of `op` on `lhs` and `rhs`.
pub open spec fn binary(op: Bop, lhs: NodeModel, rhs: NodeModel) -> NodeModel {
    NodeModel::Binop { op, lhs: Box::new(lhs), rhs: Box::new(rhs) }
}

/// How two binary operators between three variables group: the second operator takes the
/// last two variables where it binds more tightly than the first, or as tightly and is
/// `**`; otherwise the first operator takes the first two variables. So operators of one
/// precedence group to the left, but for `**`, which groups to the right.
pub proof fn lemma_grouping(tokens: Seq<TokenContextModel>)
    requires
        tokens.len() == 5,
        tokens[0].kind is Iden,
        binary_operator(tokens[1].kind) is Some,
        tokens[2].kind is Iden,
        binary_operator(tokens[3].kind) is Some,
        tokens[4].kind is Iden,
    ensures
        ({
            let first = binary_operator(tokens[1].kind)->0;
            let second = binary_operator(tokens[3].kind)->0;
            let x = NodeModel::Variable(tokens[0].kind->Iden_0);
            let y = NodeModel::Variable(tokens[2].kind->Iden_0);
            let z = NodeModel::Variable(tokens[4].kind->Iden_0);
            parse_expr(tokens) == Ok::<(NodeModel, Seq<TokenContextModel>), ParseErrorModel>(
                (
                    if precedence(second) >= operand_precedence(first) {
                        binary(first, x, binary(second, y, z))
                    } else {
                        binary(second, binary(first, x, y), z)
                    },
                    Seq::empty(),
                ),
            )
        }),
{
    let first = binary_operator(tokens[1].kind)->0;
    let second = binary_operator(tokens[3].kind)->0;
    let t1 = tokens.drop_first();
    let t2 = t1.drop_first();
    let t3 = t2.drop_first();
    let t4 = t3.drop_first();
    let t5 = t4.drop_first();
    assert(t5 =~= Seq::empty());
    let x = NodeModel::Variable(tokens[0].kind->Iden_0);
    let y = NodeModel::Variable(tokens[2].kind->Iden_0);
    let z = NodeModel::Variable(tokens[4].kind->Iden_0);
    lemma_variable(tokens);
    lemma_variable(t2);
    lemma_variable(t4);
    let m = operand_precedence(first);
    assert forall|lhs: NodeModel, min: nat| #[trigger]
        climb(t5, lhs, min) == Ok::<(NodeModel, Seq<TokenContextModel>), ParseErrorModel>(
            (lhs, t5),
        ) by {}
    assert forall|min: nat| #[trigger]
        parse_binary(t4, min) == Ok::<(NodeModel, Seq<TokenContextModel>), ParseErrorModel>(
            (z, t5),
        ) by {
        assert(climb(t5, z, min) == Ok::<(NodeModel, Seq<TokenContextModel>), ParseErrorModel>(
            (z, t5),
        ));
    }
    assert forall|lhs: NodeModel, min: nat| #[trigger]
        climb(t3, lhs, min) == Ok::<(NodeModel, Seq<TokenContextModel>), ParseErrorModel>(
            if precedence(second) >= min {
                (binary(second, lhs, z), t5)
            } else {
                (lhs, t3)
            },
        ) by {
        if precedence(second) >= min {
            assert(parse_binary(t4, operand_precedence(second)) == Ok::<
                (NodeModel, Seq<TokenContextModel>),
                ParseErrorModel,
            >((z, t5)));
            assert(climb(t5, binary(second, lhs, z), min) == Ok::<
                (NodeModel, Seq<TokenContextModel>),
                ParseErrorModel,
            >((binary(second, lhs, z), t5)));
        }
    }
    assert(parse_binary(t2, m) == climb(t3, y, m));
    if precedence(second) >= m {
        assert(climb(t5, binary(first, x, binary(second, y, z)), 1) == Ok::<
            (NodeModel, Seq<TokenContextModel>),
            ParseErrorModel,
        >((binary(first, x, binary(second, y, z)), t5)));
    } else {
        assert(climb(t3, binary(first, x, y), 1) == Ok::<
            (NodeModel, Seq<TokenContextModel>),
            ParseErrorModel,
        >((binary(second, binary(first, x, y), z), t5)));
    }
}

/// An identifier that no parenthesis follows is a variable, as a primary and as a unary
/// expression.
proof fn lemma_variable(tokens: Seq<TokenContextModel>)
    requires
        tokens.len() > 0,
        tokens[0].kind is Iden,
        tokens.len() > 1 ==> !(tokens[1].kind is LParen),
    ensures
        parse_unary(tokens) == Ok::<(NodeModel, Seq<TokenContextModel>), ParseErrorModel>(
            (NodeModel::Variable(tokens[0].kind->Iden_0), tokens.drop_first()),
        ),
{
    reveal_with_fuel(parse_unary, 2);
    reveal_with_fuel(parse_primary, 2);
}

} // verus!
