//! What the tokenizer finds in a source text, stated as functions of the text.
//!
//! The source is a sequence of bytes, and each byte stands for the character of the same
//! number. Offsets count bytes from the start of the source.

use vstd::prelude::*;
use crate::ascii::BACKSLASH;
use crate::ascii::COMMA;
use crate::ascii::DIGIT_0;
use crate::ascii::DIGIT_9;
use crate::ascii::DOT;
use crate::ascii::DOUBLE_QUOTE;
use crate::ascii::LBRACE;
use crate::ascii::LBRACKET;
use crate::ascii::LOWER_A;
use crate::ascii::LOWER_N;
use crate::ascii::LOWER_R;
use crate::ascii::LOWER_T;
use crate::ascii::LOWER_Z;
use crate::ascii::LPAREN;
use crate::ascii::NEWLINE;
use crate::ascii::NUL;
use crate::ascii::QUOTE;
use crate::ascii::RBRACE;
use crate::ascii::RBRACKET;
use crate::ascii::RETURN;
use crate::ascii::RPAREN;
use crate::ascii::SEMICOLON;
use crate::ascii::SPACE;
use crate::ascii::TAB;
use crate::ascii::UNDERSCORE;
use crate::ascii::UPPER_A;
use crate::ascii::UPPER_Z;
use crate::decimal::int_literal;
use crate::text::chars_of;
use crate::token::Aop;
use crate::token::Op;
use crate::token::Position;
use crate::token::TokenContextModel;
use crate::token::TokenModel;

verus! {

/// Whitespace: space, tab and newline.
pub open spec fn is_space(b: u8) -> bool {
    b == SPACE || b == TAB || b == NEWLINE
}

/// The delimiters that are tokens by themselves: `[ ] ( ) { } , . ;`.
pub open spec fn is_control(b: u8) -> bool {
    b == LBRACKET || b == RBRACKET || b == LPAREN || b == RPAREN || b == LBRACE || b == RBRACE
        || b == COMMA || b == DOT || b == SEMICOLON
}

/// The letters among the first 256 scalars.
pub open spec fn is_alphabetic(b: u8) -> bool {
    (UPPER_A <= b <= UPPER_Z) || (LOWER_A <= b <= LOWER_Z) || b == 0xAA || b == 0xB5 || b
        == 0xBA || (0xC0 <= b <= 0xD6) || (0xD8 <= b <= 0xF6) || 0xF8 <= b
}

/// The numeric characters among the first 256 scalars: the ASCII digits, the superscript
/// digits and the vulgar fractions.
pub open spec fn is_numeric(b: u8) -> bool {
    (DIGIT_0 <= b <= DIGIT_9) || b == 0xB2 || b == 0xB3 || b == 0xB9 || (0xBC <= b <= 0xBE)
}

/// Letters and numeric characters.
pub open spec fn is_alphanumeric(b: u8) -> bool {
    is_alphabetic(b) || is_numeric(b)
}

/// The classes of characters that a token is accumulated from.
pub enum CharClass {
    /// Whitespace between tokens.
    Space,
    /// What follows the first digit of a number: alphanumerics and dots.
    Number,
    /// What follows the first character of a keyword or identifier: alphanumerics and
    /// underscores.
    Word,
    /// What follows the first character of an operator: anything but whitespace,
    /// alphanumerics and delimiters.
    Symbol,
}

/// Whether `b` belongs to `class`.
pub open spec fn in_class(class: CharClass, b: u8) -> bool {
    match class {
        CharClass::Space => is_space(b),
        CharClass::Number => is_alphanumeric(b) || b == DOT,
        CharClass::Word => is_alphanumeric(b) || b == UNDERSCORE,
        CharClass::Symbol => !is_space(b) && !is_alphanumeric(b) && !is_control(b),
    }
}

/// The offset at which the longest run of `class` characters that starts at `i` ends.
pub open spec fn run_end(src: Seq<u8>, i: int, class: CharClass) -> int
    decreases src.len() - i,
{
    if 0 <= i < src.len() && in_class(class, src[i]) {
        run_end(src, i + 1, class)
    } else {
        i
    }
}

/// The number of newlines among the first `i` bytes of `src`.
pub open spec fn line_at(src: Seq<u8>, i: int) -> nat
    decreases i,
{
    if i <= 0 {
        0
    } else if src[i - 1] == NEWLINE {
        line_at(src, i - 1) + 1
    } else {
        line_at(src, i - 1)
    }
}

/// The number of bytes between the last newline before offset `i` and offset `i`.
pub open spec fn col_at(src: Seq<u8>, i: int) -> nat
    decreases i,
{
    if i <= 0 {
        0
    } else if src[i - 1] == NEWLINE {
        0
    } else {
        col_at(src, i - 1) + 1
    }
}

/// The position reached when the first `i` bytes of `src` have been consumed: a newline
/// starts the next line at column zero, any other byte moves one column on.
pub open spec fn position_at(src: Seq<u8>, i: int) -> Position {
    Position { line: line_at(src, i) as u32, col: col_at(src, i) as u32 }
}

/// The character that an escape sequence stands for: `\\`, `\n`, `\t`, `\r`, `\0`, and
/// the terminator of the literal after a backslash for itself.
pub open spec fn escape(b: u8, term: u8) -> Option<u8> {
    if b == BACKSLASH {
        Some(BACKSLASH)
    } else if b == LOWER_N {
        Some(NEWLINE)
    } else if b == LOWER_T {
        Some(TAB)
    } else if b == LOWER_R {
        Some(RETURN)
    } else if b == DIGIT_0 {
        Some(NUL)
    } else if b == term {
        Some(term)
    } else {
        None
    }
}

/// How the scan of the body of a quoted literal ends.
pub ghost enum TextScan {
    /// The terminator was found: the decoded text, and the offset after the terminator.
    Closed { text: Seq<u8>, end: int },
    /// A backslash is followed by a character that starts no escape sequence: the offset
    /// of that character.
    BadEscape { at: int },
    /// The source ends before the terminator: the text decoded so far.
    Open { text: Seq<u8> },
}

/// The scan of the body of a quoted literal from offset `i`, with `acc` decoded so far.
pub open spec fn scan_text_from(src: Seq<u8>, i: int, term: u8, acc: Seq<u8>) -> TextScan
    decreases src.len() - i,
{
    if i < 0 || i >= src.len() {
        TextScan::Open { text: acc }
    } else if src[i] == BACKSLASH {
        if i + 1 >= src.len() {
            TextScan::Open { text: acc }
        } else {
            match escape(src[i + 1], term) {
                Some(c) => scan_text_from(src, i + 2, term, acc.push(c)),
                None => TextScan::BadEscape { at: i + 1 },
            }
        }
    } else if src[i] == term {
        TextScan::Closed { text: acc, end: i + 1 }
    } else {
        scan_text_from(src, i + 1, term, acc.push(src[i]))
    }
}

/// The token that a delimiter is.
pub open spec fn control_token(b: u8) -> TokenModel {
    if b == LBRACKET {
        TokenModel::LBracket
    } else if b == RBRACKET {
        TokenModel::RBracket
    } else if b == LPAREN {
        TokenModel::LParen
    } else if b == RPAREN {
        TokenModel::RParen
    } else if b == LBRACE {
        TokenModel::LBrace
    } else if b == RBRACE {
        TokenModel::RBrace
    } else if b == COMMA {
        TokenModel::Comma
    } else if b == DOT {
        TokenModel::Dot
    } else {
        TokenModel::SemiColon
    }
}

/// The token that a word is: one of the keywords, or else an identifier.
pub open spec fn word_token(text: Seq<char>) -> TokenModel {
    if text == "fn"@ {
        TokenModel::Fn
    } else if text == "struct"@ {
        TokenModel::Struct
    } else if text == "type"@ {
        TokenModel::Type
    } else if text == "return"@ {
        TokenModel::Return
    } else if text == "break"@ {
        TokenModel::Break
    } else if text == "continue"@ {
        TokenModel::Continue
    } else if text == "while"@ {
        TokenModel::While
    } else if text == "for"@ {
        TokenModel::For
    } else if text == "in"@ {
        TokenModel::In
    } else if text == "true"@ {
        TokenModel::True
    } else if text == "false"@ {
        TokenModel::False
    } else if text == "import"@ {
        TokenModel::Import
    } else {
        TokenModel::Iden(text)
    }
}

/// The token that a run of symbol characters is, where it is one of the operators.
pub open spec fn symbol_token(text: Seq<char>) -> Option<TokenModel> {
    if text == "*"@ {
        Some(TokenModel::Operator(Op::Multiply))
    } else if text == "**"@ {
        Some(TokenModel::Operator(Op::Exp))
    } else if text == "*="@ {
        Some(TokenModel::AssignOp(Aop::Multiply))
    } else if text == "**="@ {
        Some(TokenModel::AssignOp(Aop::Exp))
    } else if text == "-"@ {
        Some(TokenModel::Operator(Op::Minus))
    } else if text == "-="@ {
        Some(TokenModel::AssignOp(Aop::Minus))
    } else if text == "+"@ {
        Some(TokenModel::Operator(Op::Plus))
    } else if text == "+="@ {
        Some(TokenModel::AssignOp(Aop::Plus))
    } else if text == "/"@ {
        Some(TokenModel::Operator(Op::Divide))
    } else if text == "/="@ {
        Some(TokenModel::AssignOp(Aop::Divide))
    } else if text == ":="@ {
        Some(TokenModel::Declare)
    } else if text == "="@ {
        Some(TokenModel::Assign)
    } else if text == "=="@ {
        Some(TokenModel::Operator(Op::Eq))
    } else if text == "!="@ {
        Some(TokenModel::Operator(Op::Neq))
    } else if text == "<="@ {
        Some(TokenModel::Operator(Op::Leq))
    } else if text == "<"@ {
        Some(TokenModel::Operator(Op::Lt))
    } else if text == ">="@ {
        Some(TokenModel::Operator(Op::Geq))
    } else if text == ">"@ {
        Some(TokenModel::Operator(Op::Gt))
    } else if text == "&&"@ {
        Some(TokenModel::Operator(Op::And))
    } else if text == "||"@ {
        Some(TokenModel::Operator(Op::Or))
    } else if text == "!"@ {
        Some(TokenModel::Operator(Op::Not))
    } else if text == "->"@ {
        Some(TokenModel::Arrow)
    } else {
        None
    }
}

/// The kinds of lexical error.
#[derive(Debug, Clone, Copy, PartialEq, Eq)]
pub enum LexFault {
    /// A backslash in a quoted literal is followed by a character that starts no escape
    /// sequence.
    Escape,
    /// A character literal does not hold exactly one character.
    Char,
    /// A number without a dot is no 32-bit integer.
    Int,
    /// A number with a dot is no floating literal.
    Float,
    /// A run of symbol characters is no operator.
    Symbol,
    /// The source ends inside a quoted literal.
    Unterminated,
}

/// What stands at an offset of the source, before a floating literal is given its value.
pub ghost enum Found {
    /// Nothing but whitespace is left.
    End,
    /// A token.
    Token(TokenModel),
    /// The text of a number with a dot in it.
    Float(Seq<char>),
    /// A lexical error of the given kind, with the offending text.
    Fault(LexFault, Seq<char>),
}

/// What stands at an offset, with the offsets at which it starts and after which the scan
/// goes on.
pub ghost struct Step {
    pub found: Found,
    pub start: int,
    pub next: int,
}

/// The quoted literal whose opening quote stands at offset `open` and which `term` ends:
/// a character literal where `is_char` holds, a string literal otherwise.
pub open spec fn quoted_step(src: Seq<u8>, open: int, term: u8, is_char: bool) -> Step {
    match scan_text_from(src, open + 1, term, Seq::empty()) {
        TextScan::Closed { text, end } => if !is_char {
            Step { found: Found::Token(TokenModel::StrLit(chars_of(text))), start: open, next: end }
        } else if text.len() == 1 {
            Step { found: Found::Token(TokenModel::CharLit(text[0] as char)), start: open, next: end }
        } else {
            Step { found: Found::Fault(LexFault::Char, chars_of(text)), start: open, next: end }
        },
        TextScan::BadEscape { at } => Step {
            found: Found::Fault(LexFault::Escape, seq![src[at] as char]),
            start: at - 1,
            next: at + 1,
        },
        TextScan::Open { text } => Step {
            found: Found::Fault(LexFault::Unterminated, chars_of(text)),
            start: open,
            next: src.len() as int,
        },
    }
}

/// The number that starts at offset `s`: it runs over alphanumerics and dots; with a dot
/// it is a floating literal, without one an integer.
pub open spec fn number_step(src: Seq<u8>, s: int) -> Step {
    let e = run_end(src, s + 1, CharClass::Number);
    let lexeme = src.subrange(s, e);
    if lexeme.contains(DOT) {
        Step { found: Found::Float(chars_of(lexeme)), start: s, next: e }
    } else {
        match int_literal(lexeme) {
            Some(n) => Step { found: Found::Token(TokenModel::IntLit(n)), start: s, next: e },
            None => Step { found: Found::Fault(LexFault::Int, chars_of(lexeme)), start: s, next: e },
        }
    }
}

/// The keyword or identifier that starts at offset `s`: it runs over alphanumerics and
/// underscores.
pub open spec fn word_step(src: Seq<u8>, s: int) -> Step {
    let e = run_end(src, s + 1, CharClass::Word);
    Step { found: Found::Token(word_token(chars_of(src.subrange(s, e)))), start: s, next: e }
}

/// The operator that starts at offset `s`: it runs up to whitespace, an alphanumeric or a
/// delimiter.
pub open spec fn symbol_step(src: Seq<u8>, s: int) -> Step {
    let e = run_end(src, s + 1, CharClass::Symbol);
    let text = chars_of(src.subrange(s, e));
    match symbol_token(text) {
        Some(t) => Step { found: Found::Token(t), start: s, next: e },
        None => Step { found: Found::Fault(LexFault::Symbol, text), start: s, next: e },
    }
}

/// What stands at the first offset from `i` on that holds no whitespace.
///
/// A delimiter is a token by itself. A quote opens a character or string literal. A digit
/// starts a number. Another alphanumeric starts a keyword or identifier. Anything else
/// starts an operator.
pub open spec fn step_at(src: Seq<u8>, i: int) -> Step {
    let s = run_end(src, i, CharClass::Space);
    if s >= src.len() {
        Step { found: Found::End, start: s, next: s }
    } else {
        let c = src[s];
        if is_control(c) {
            Step { found: Found::Token(control_token(c)), start: s, next: s + 1 }
        } else if c == QUOTE {
            quoted_step(src, s, QUOTE, true)
        } else if c == DOUBLE_QUOTE {
            quoted_step(src, s, DOUBLE_QUOTE, false)
        } else if DIGIT_0 <= c <= DIGIT_9 {
            number_step(src, s)
        } else if is_alphanumeric(c) {
            word_step(src, s)
        } else {
            symbol_step(src, s)
        }
    }
}

/// A lexical error: its kind, the offending text, and the positions between which the
/// text stands.
pub ghost struct LexErrorModel {
    pub kind: LexFault,
    pub text: Seq<char>,
    pub lpos: Position,
    pub rpos: Position,
}

/// What one read of the tokenizer yields.
pub ghost enum Lexed {
    /// The end of the source.
    End,
    /// A located token.
    Token(TokenContextModel),
    /// A lexical error.
    Error(LexErrorModel),
}

/// What a number with a dot in it yields once the reader of floating literals has answered
/// with `value`: the literal of the bits, or an error where the answer is nothing.
pub open spec fn lexed_float(text: Seq<char>, value: Option<u64>, lpos: Position, rpos: Position) -> Lexed {
    match value {
        Some(bits) => Lexed::Token(TokenContextModel { kind: TokenModel::FloatLit(bits), lpos, rpos }),
        None => Lexed::Error(LexErrorModel { kind: LexFault::Float, text, lpos, rpos }),
    }
}

/// What a step yields once it is located, where `float_of` gives the bits of a floating
/// literal from its text, or nothing for a text that is no floating literal.
pub open spec fn lexed_of(src: Seq<u8>, step: Step, float_of: spec_fn(Seq<char>) -> Option<u64>) -> Lexed {
    let lpos = position_at(src, step.start);
    let rpos = position_at(src, step.next);
    match step.found {
        Found::End => Lexed::End,
        Found::Token(kind) => Lexed::Token(TokenContextModel { kind, lpos, rpos }),
        Found::Float(text) => lexed_float(text, float_of(text), lpos, rpos),
        Found::Fault(kind, text) => Lexed::Error(LexErrorModel { kind, text, lpos, rpos }),
    }
}

/// What one read at offset `i` yields.
pub open spec fn lex_at(src: Seq<u8>, i: int, float_of: spec_fn(Seq<char>) -> Option<u64>) -> Lexed {
    lexed_of(src, step_at(src, i), float_of)
}

/// The first `i` bytes of a source hold no more newlines and columns than bytes.
pub proof fn lemma_position_bound(src: Seq<u8>, i: int)
    requires
        0 <= i,
    ensures
        line_at(src, i) + col_at(src, i) <= i,
    decreases i,
{
    if i > 0 {
        lemma_position_bound(src, i - 1);
    }
}

/// A run of a class ends at or after its start, and within the source.
pub proof fn lemma_run_end_bounds(src: Seq<u8>, i: int, class: CharClass)
    requires
        0 <= i <= src.len(),
    ensures
        i <= run_end(src, i, class) <= src.len(),
        forall|k: int| i <= k < run_end(src, i, class) ==> in_class(class, #[trigger] src[k]),
        run_end(src, i, class) < src.len() ==> !in_class(class, src[run_end(src, i, class)]),
    decreases src.len() - i,
{
    if i < src.len() && in_class(class, src[i]) {
        lemma_run_end_bounds(src, i + 1, class);
    }
}

/// The scan of the body of a quoted literal stays within the source and moves on.
pub proof fn lemma_scan_text_bounds(src: Seq<u8>, i: int, term: u8, acc: Seq<u8>)
    requires
        0 <= i <= src.len(),
    ensures
        match scan_text_from(src, i, term, acc) {
            TextScan::Closed { text, end } => i < end <= src.len(),
            TextScan::BadEscape { at } => i < at < src.len(),
            TextScan::Open { text } => true,
        },
    decreases src.len() - i,
{
    if i < src.len() {
        if src[i] == BACKSLASH {
            if i + 1 < src.len() {
                match escape(src[i + 1], term) {
                    Some(c) => {
                        lemma_scan_text_bounds(src, i + 2, term, acc.push(c));
                    },
                    None => {},
                }
            }
        } else if src[i] != term {
            lemma_scan_text_bounds(src, i + 1, term, acc.push(src[i]));
        }
    }
}

/// A step starts at or after the offset it is asked at, ends within the source, and
/// unless the source has ended it consumes at least one byte.
pub proof fn lemma_step_bounds(src: Seq<u8>, i: int)
    requires
        0 <= i <= src.len(),
    ensures
        i <= step_at(src, i).start <= step_at(src, i).next <= src.len(),
        !(step_at(src, i).found is End) ==> step_at(src, i).start < step_at(src, i).next,
{
    lemma_run_end_bounds(src, i, CharClass::Space);
    let s = run_end(src, i, CharClass::Space);
    if s < src.len() {
        lemma_scan_text_bounds(src, s + 1, QUOTE, Seq::empty());
        lemma_scan_text_bounds(src, s + 1, DOUBLE_QUOTE, Seq::empty());
        lemma_run_end_bounds(src, s + 1, CharClass::Number);
        lemma_run_end_bounds(src, s + 1, CharClass::Word);
        lemma_run_end_bounds(src, s + 1, CharClass::Symbol);
    }
}

/// The tokens of the source from offset `i` on, or the first lexical error.
pub open spec fn lex_all(
    src: Seq<u8>,
    i: int,
    float_of: spec_fn(Seq<char>) -> Option<u64>,
) -> Result<Seq<TokenContextModel>, LexErrorModel>
    decreases src.len() - i,
    when 0 <= i <= src.len()
{
    match lex_at(src, i, float_of) {
        Lexed::End => Ok(Seq::empty()),
        Lexed::Error(e) => Err(e),
        Lexed::Token(t) => {
            proof {
                lemma_step_bounds(src, i);
            }
            match lex_all(src, step_at(src, i).next, float_of) {
                Ok(rest) => Ok(seq![t] + rest),
                Err(e) => Err(e),
            }
        },
    }
}

} // verus!
