//! Tokens, the positions that locate them, and their mathematical models.

use vstd::prelude::*;
use vstd::string::StringExecFns;
use crate::decimal::digits_of;
use crate::decimal::push_decimal;
use crate::text::chars_of;

verus! {

/// A place in the source text: a line and a column, both counted from zero.
#[derive(Debug, Clone, Copy, PartialEq, Eq)]
pub struct Position {
    pub line: u32,
    pub col: u32,
}

impl Position {
    /// Whether `self` comes no later than `other`: on an earlier line, or on the same
    /// line at no later a column.
    pub open spec fn precedes(self, other: Position) -> bool {
        self.line < other.line || (self.line == other.line && self.col <= other.col)
    }

    /// The line that presents a position to a reader.
    pub open spec fn rendered(self) -> Seq<char> {
        "line: "@ + chars_of(digits_of(self.line as nat)) + ", col: "@ + chars_of(
            digits_of(self.col as nat),
        )
    }

    /// Presents the position as `line: L, col: C`.
    pub fn render(&self) -> (s: String)
        ensures
            s@ == self.rendered(),
    {
        let mut s = String::from_str("line: ");
        push_decimal(&mut s, self.line);
        s.append(", col: ");
        push_decimal(&mut s, self.col);
        s
    }
}

/// A binary or unary operator as the tokenizer names it.
#[derive(Debug, Clone, Copy, PartialEq, Eq, Structural)]
pub enum Op {
    Plus,
    Exp,
    Minus,
    Multiply,
    Divide,
    Eq,
    Neq,
    Leq,
    Geq,
    Lt,
    Gt,
    And,
    Or,
    Not,
}

/// The operator of a compound assignment.
#[derive(Debug, Clone, Copy, PartialEq, Eq, Structural)]
pub enum Aop {
    Plus,
    Exp,
    Minus,
    Multiply,
    Divide,
}

/// A lexical unit. A floating literal holds the bit pattern of its 64-bit value.
#[derive(Debug, PartialEq)]
pub enum Token {
    IntLit(i32),
    FloatLit(u64),
    CharLit(char),
    StrLit(String),
    LParen,
    RParen,
    LBracket,
    RBracket,
    LBrace,
    RBrace,
    Dot,
    Comma,
    Declare,
    Assign,
    AssignOp(Aop),
    Operator(Op),
    Iden(String),
    True,
    False,
    Fn,
    Struct,
    Type,
    Return,
    Break,
    Continue,
    While,
    For,
    In,
    Import,
    SemiColon,
    Arrow,
}

/// The model of a [`Token`]: the same variants, with text as a sequence of characters.
pub ghost enum TokenModel {
    IntLit(i32),
    FloatLit(u64),
    CharLit(char),
    StrLit(Seq<char>),
    LParen,
    RParen,
    LBracket,
    RBracket,
    LBrace,
    RBrace,
    Dot,
    Comma,
    Declare,
    Assign,
    AssignOp(Aop),
    Operator(Op),
    Iden(Seq<char>),
    True,
    False,
    Fn,
    Struct,
    Type,
    Return,
    Break,
    Continue,
    While,
    For,
    In,
    Import,
    SemiColon,
    Arrow,
}

impl TokenModel {
    /// The short text that names the class of a token in messages.
    pub open spec fn text(self) -> Seq<char> {
        match self {
            TokenModel::IntLit(_) => "<int>"@,
            TokenModel::FloatLit(_) => "<float>"@,
            TokenModel::CharLit(_) => "<char>"@,
            TokenModel::StrLit(_) => "<string>"@,
            TokenModel::LParen => "'('"@,
            TokenModel::RParen => "')'"@,
            TokenModel::LBracket => "'['"@,
            TokenModel::RBracket => "']'"@,
            TokenModel::LBrace => "'{'"@,
            TokenModel::RBrace => "'}'"@,
            TokenModel::Dot => "'.'"@,
            TokenModel::Comma => "','"@,
            TokenModel::Declare => "':='"@,
            TokenModel::Assign => "'='"@,
            TokenModel::AssignOp(_) => "<assignop>"@,
            TokenModel::Operator(_) => "<operator>"@,
            TokenModel::Iden(_) => "<iden>"@,
            TokenModel::True => "true"@,
            TokenModel::False => "false"@,
            TokenModel::Fn => "fn"@,
            TokenModel::Struct => "struct"@,
            TokenModel::Type => "type"@,
            TokenModel::Return => "return"@,
            TokenModel::Break => "break"@,
            TokenModel::Continue => "continue"@,
            TokenModel::While => "while"@,
            TokenModel::For => "for"@,
            TokenModel::In => "in"@,
            TokenModel::Import => "import"@,
            TokenModel::SemiColon => "';'"@,
            TokenModel::Arrow => "'->'"@,
        }
    }
}

impl View for Token {
    type V = TokenModel;

    open spec fn view(&self) -> TokenModel {
        match self {
            Token::IntLit(n) => TokenModel::IntLit(*n),
            Token::FloatLit(bits) => TokenModel::FloatLit(*bits),
            Token::CharLit(c) => TokenModel::CharLit(*c),
            Token::StrLit(s) => TokenModel::StrLit(s@),
            Token::LParen => TokenModel::LParen,
            Token::RParen => TokenModel::RParen,
            Token::LBracket => TokenModel::LBracket,
            Token::RBracket => TokenModel::RBracket,
            Token::LBrace => TokenModel::LBrace,
            Token::RBrace => TokenModel::RBrace,
            Token::Dot => TokenModel::Dot,
            Token::Comma => TokenModel::Comma,
            Token::Declare => TokenModel::Declare,
            Token::Assign => TokenModel::Assign,
            Token::AssignOp(op) => TokenModel::AssignOp(*op),
            Token::Operator(op) => TokenModel::Operator(*op),
            Token::Iden(s) => TokenModel::Iden(s@),
            Token::True => TokenModel::True,
            Token::False => TokenModel::False,
            Token::Fn => TokenModel::Fn,
            Token::Struct => TokenModel::Struct,
            Token::Type => TokenModel::Type,
            Token::Return => TokenModel::Return,
            Token::Break => TokenModel::Break,
            Token::Continue => TokenModel::Continue,
            Token::While => TokenModel::While,
            Token::For => TokenModel::For,
            Token::In => TokenModel::In,
            Token::Import => TokenModel::Import,
            Token::SemiColon => TokenModel::SemiColon,
            Token::Arrow => TokenModel::Arrow,
        }
    }
}

impl Token {
    /// The short text that names the class of this token in messages.
    pub fn to_text(&self) -> (text: &'static str)
        ensures
            text@ == self@.text(),
    {
        match self {
            Token::IntLit(_) => "<int>",
            Token::FloatLit(_) => "<float>",
            Token::CharLit(_) => "<char>",
            Token::StrLit(_) => "<string>",
            Token::LParen => "'('",
            Token::RParen => "')'",
            Token::LBracket => "'['",
            Token::RBracket => "']'",
            Token::LBrace => "'{'",
            Token::RBrace => "'}'",
            Token::Dot => "'.'",
            Token::Comma => "','",
            Token::Declare => "':='",
            Token::Assign => "'='",
            Token::AssignOp(_) => "<assignop>",
            Token::Operator(_) => "<operator>",
            Token::Iden(_) => "<iden>",
            Token::True => "true",
            Token::False => "false",
            Token::Fn => "fn",
            Token::Struct => "struct",
            Token::Type => "type",
            Token::Return => "return",
            Token::Break => "break",
            Token::Continue => "continue",
            Token::While => "while",
            Token::For => "for",
            Token::In => "in",
            Token::Import => "import",
            Token::SemiColon => "';'",
            Token::Arrow => "'->'",
        }
    }
}

impl Token {
    /// Whether two tokens are the same: of one variant, and with the same payload.
    pub fn same(&self, other: &Token) -> (r: bool)
        ensures
            r == (self@ == other@),
    {
        match (self, other) {
            (Token::IntLit(a), Token::IntLit(b)) => *a == *b,
            (Token::FloatLit(a), Token::FloatLit(b)) => *a == *b,
            (Token::CharLit(a), Token::CharLit(b)) => *a == *b,
            (Token::StrLit(a), Token::StrLit(b)) => *a == *b,
            (Token::LParen, Token::LParen) => true,
            (Token::RParen, Token::RParen) => true,
            (Token::LBracket, Token::LBracket) => true,
            (Token::RBracket, Token::RBracket) => true,
            (Token::LBrace, Token::LBrace) => true,
            (Token::RBrace, Token::RBrace) => true,
            (Token::Dot, Token::Dot) => true,
            (Token::Comma, Token::Comma) => true,
            (Token::Declare, Token::Declare) => true,
            (Token::Assign, Token::Assign) => true,
            (Token::AssignOp(a), Token::AssignOp(b)) => *a == *b,
            (Token::Operator(a), Token::Operator(b)) => *a == *b,
            (Token::Iden(a), Token::Iden(b)) => *a == *b,
            (Token::True, Token::True) => true,
            (Token::False, Token::False) => true,
            (Token::Fn, Token::Fn) => true,
            (Token::Struct, Token::Struct) => true,
            (Token::Type, Token::Type) => true,
            (Token::Return, Token::Return) => true,
            (Token::Break, Token::Break) => true,
            (Token::Continue, Token::Continue) => true,
            (Token::While, Token::While) => true,
            (Token::For, Token::For) => true,
            (Token::In, Token::In) => true,
            (Token::Import, Token::Import) => true,
            (Token::SemiColon, Token::SemiColon) => true,
            (Token::Arrow, Token::Arrow) => true,
            _ => false,
        }
    }
}

/// A token with the positions of its first character and of the character after its last.
#[derive(Debug, PartialEq)]
pub struct TokenContext {
    pub kind: Token,
    pub lpos: Position,
    pub rpos: Position,
}

/// The model of a [`TokenContext`].
pub ghost struct TokenContextModel {
    pub kind: TokenModel,
    pub lpos: Position,
    pub rpos: Position,
}

impl TokenContextModel {
    /// The line that presents a located token to a reader.
    pub open spec fn rendered(self) -> Seq<char> {
        self.kind.text() + " between "@ + self.lpos.rendered() + " and "@ + self.rpos.rendered()
    }
}

impl View for TokenContext {
    type V = TokenContextModel;

    open spec fn view(&self) -> TokenContextModel {
        TokenContextModel { kind: self.kind@, lpos: self.lpos, rpos: self.rpos }
    }
}

impl TokenContext {
    /// Presents the token as `T between P and Q`, with the text of its class and its two
    /// positions.
    pub fn render(&self) -> (s: String)
        ensures
            s@ == self@.rendered(),
    {
        let mut s = String::from_str(self.kind.to_text());
        s.append(" between ");
        let l = self.lpos.render();
        s.append(l.as_str());
        s.append(" and ");
        let r = self.rpos.render();
        s.append(r.as_str());
        s
    }
}

/// The models of a sequence of located tokens, in order.
pub open spec fn token_models(tokens: Seq<TokenContext>) -> Seq<TokenContextModel> {
    Seq::new(tokens.len(), |i: int| tokens[i]@)
}

} // verus!
