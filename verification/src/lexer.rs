//! The tokenizer: it reads located tokens from a source held in memory.

use std::collections::VecDeque;
use vstd::prelude::*;
use vstd::string::StringExecFns;
use crate::ascii::BACKSLASH;
use crate::ascii::COMMA;
use crate::ascii::DIGIT_0;
use crate::ascii::DIGIT_9;
use crate::ascii::DOT;
use crate::ascii::DOUBLE_QUOTE;
use crate::ascii::LBRACE;
use crate::ascii::LBRACKET;
use crate::ascii::LOWER_A;
use crate::ascii::LOWER_N;
use crate::ascii::LOWER_R;
use crate::ascii::LOWER_T;
use crate::ascii::LOWER_Z;
use crate::ascii::LPAREN;
use crate::ascii::NEWLINE;
use crate::ascii::NUL;
use crate::ascii::QUOTE;
use crate::ascii::RBRACE;
use crate::ascii::RBRACKET;
use crate::ascii::RETURN;
use crate::ascii::RPAREN;
use crate::ascii::SEMICOLON;
use crate::ascii::SPACE;
use crate::ascii::TAB;
use crate::ascii::UNDERSCORE;
use crate::ascii::UPPER_A;
use crate::ascii::UPPER_Z;
use crate::decimal::digits_of;
use crate::decimal::int_literal;
use crate::decimal::is_digit;
use crate::decimal::lemma_digits_round_trip;
use crate::decimal::parse_int;
use crate::scan::control_token;
use crate::scan::escape;
use crate::scan::in_class;
use crate::scan::is_alphanumeric;
use crate::scan::is_control;
use crate::scan::lemma_position_bound;
use crate::scan::lemma_run_end_bounds;
use crate::scan::lemma_step_bounds;
use crate::scan::lex_all;
use crate::scan::lex_at;
use crate::scan::lexed_float;
use crate::scan::lexed_of;
use crate::scan::number_step;
use crate::scan::position_at;
use crate::scan::quoted_step;
use crate::scan::run_end;
use crate::scan::scan_text_from;
use crate::scan::step_at;
use crate::scan::symbol_step;
use crate::scan::word_step;
use crate::scan::CharClass;
use crate::scan::Found;
use crate::scan::Lexed;
use crate::scan::LexErrorModel;
use crate::scan::LexFault;
use crate::scan::Step;
use crate::scan::TextScan;
use crate::text::chars_of;
use crate::text::lemma_one_line;
use crate::text::one_line;
use crate::text::push_char;
use crate::text::to_one_line;
use crate::token::token_models;
use crate::token::Aop;
use crate::token::Op;
use crate::token::Position;
use crate::token::Token;
use crate::token::TokenContext;
use crate::token::TokenContextModel;
use crate::token::TokenModel;

verus! {

/// A lexical error: its kind, the offending text, and the positions between which the
/// text stands.
#[derive(Debug, PartialEq)]
pub struct LexError {
    pub kind: LexFault,
    pub text: String,
    pub lpos: Position,
    pub rpos: Position,
}

impl View for LexError {
    type V = LexErrorModel;

    open spec fn view(&self) -> LexErrorModel {
        LexErrorModel { kind: self.kind, text: self.text@, lpos: self.lpos, rpos: self.rpos }
    }
}

impl LexErrorModel {
    /// The words that name the kind of the error.
    pub open spec fn heading(self) -> Seq<char> {
        match self.kind {
            LexFault::Escape => "Invalid esc seq: '\\"@,
            LexFault::Char => "Invalid char: '"@,
            LexFault::Int => "Invalid int: '"@,
            LexFault::Float => "Invalid float: '"@,
            LexFault::Symbol => "Invalid token: '"@,
            LexFault::Unterminated => "Unterminated literal: '"@,
        }
    }

    /// The line that presents the error to a reader: its kind, the offending text in
    /// quotes, and the two positions, with each newline of the text written as a backslash
    /// and `n`.
    pub open spec fn rendered(self) -> Seq<char> {
        one_line(
            self.heading() + self.text + "' between "@ + self.lpos.rendered() + " and "@
                + self.rpos.rendered(),
        )
    }
}

impl LexError {
    /// Presents the error as one line: its kind, the offending text in quotes, and the
    /// two positions.
    pub fn render(&self) -> (s: String)
        ensures
            s@ == self@.rendered(),
            !s@.contains('\n'),
    {
        let heading: &'static str = match self.kind {
            LexFault::Escape => "Invalid esc seq: '\\",
            LexFault::Char => "Invalid char: '",
            LexFault::Int => "Invalid int: '",
            LexFault::Float => "Invalid float: '",
            LexFault::Symbol => "Invalid token: '",
            LexFault::Unterminated => "Unterminated literal: '",
        };
        let mut s = String::from_str(heading);
        s.append(self.text.as_str());
        s.append("' between ");
        let l = self.lpos.render();
        s.append(l.as_str());
        s.append(" and ");
        let r = self.rpos.render();
        s.append(r.as_str());
        proof {
            lemma_one_line(s@);
        }
        to_one_line(&s)
    }
}

/// Whether `reader` may give `out` for a literal whose text is `text`.
pub open spec fn reads<P: Fn(String) -> Option<u64>>(
    reader: P,
    text: Seq<char>,
    out: Option<u64>,
) -> bool {
    exists|s: String| s@ == text && call_ensures(reader, (s,), out)
}

/// The function from the text of a floating literal to its bits that `reader` computes.
pub open spec fn reader_fn<P: Fn(String) -> Option<u64>>(reader: P) -> spec_fn(Seq<char>) -> Option<
    u64,
> {
    |text: Seq<char>| choose|out: Option<u64>| reads(reader, text, out)
}

/// What the tokenizer asks of the reader of floating literals: it takes any text, and what
/// it answers depends on the characters of the text alone.
pub open spec fn reader_ok<P: Fn(String) -> Option<u64>>(reader: P) -> bool {
    &&& forall|s: String| call_requires(reader, (s,))
    &&& forall|s1: String, s2: String, o1: Option<u64>, o2: Option<u64>|
        s1@ == s2@ && #[trigger] call_ensures(reader, (s1,), o1) && #[trigger] call_ensures(
            reader,
            (s2,),
            o2,
        ) ==> o1 == o2
}

/// Whether the value that [`reader_fn`] has for the floating literal of `step`, if it is
/// one, is an answer of `reader` for the text of the literal.
pub open spec fn asked<P: Fn(String) -> Option<u64>>(step: Step, reader: P) -> bool {
    step.found matches Found::Float(text) ==> reads(reader, text, reader_fn(reader)(text))
}

/// The token or the error that a number with a dot in it is, once the reader of floating
/// literals has answered with `value`.
pub fn float_token(text: String, value: Option<u64>, lpos: Position, rpos: Position) -> (r: Result<
    TokenContext,
    LexError,
>)
    ensures
        scanned(r) == lexed_float(text@, value, lpos, rpos),
{
    match value {
        Some(bits) => Ok(TokenContext { kind: Token::FloatLit(bits), lpos, rpos }),
        None => Err(LexError { kind: LexFault::Float, text, lpos, rpos }),
    }
}

/// The model of what one read of the tokenizer returns.
pub open spec fn lexed_model(r: Result<Option<TokenContext>, LexError>) -> Lexed {
    match r {
        Ok(None) => Lexed::End,
        Ok(Some(t)) => Lexed::Token(t@),
        Err(e) => Lexed::Error(e@),
    }
}

/// The model of what the scan of one token returns.
pub open spec fn scanned(r: Result<TokenContext, LexError>) -> Lexed {
    match r {
        Ok(t) => Lexed::Token(t@),
        Err(e) => Lexed::Error(e@),
    }
}

/// The model of what reading all tokens returns.
pub open spec fn tokens_model(r: Result<VecDeque<TokenContext>, LexError>) -> Result<
    Seq<TokenContextModel>,
    LexErrorModel,
> {
    match r {
        Ok(tokens) => Ok(token_models(tokens@)),
        Err(e) => Err(e@),
    }
}

/// The text of `input` from `start` up to `end`, each byte as the character of the same
/// number.
fn text_of(input: &Vec<u8>, start: usize, end: usize) -> (s: String)
    requires
        start <= end <= input.len(),
    ensures
        s@ == chars_of(input@.subrange(start as int, end as int)),
{
    let mut s = String::new();
    let mut i: usize = start;
    while i < end
        invariant
            start <= i <= end <= input.len(),
            s@ == chars_of(input@.subrange(start as int, i as int)),
        decreases end - i,
    {
        push_char(&mut s, input[i] as char);
        proof {
            assert(chars_of(input@.subrange(start as int, i + 1)) =~= chars_of(
                input@.subrange(start as int, i as int),
            ).push(input@[i as int] as char));
        }
        i = i + 1;
    }
    s
}

/// Whether the text of `s` is that of the literal `lit`.
fn text_is(s: &String, lit: &str) -> (r: bool)
    ensures
        r == (s@ == lit@),
{
    let other = String::from_str(lit);
    *s == other
}

/// A tokenizer over a source held in memory. Each byte of the source stands for the
/// character of the same number; `P` reads the bits of a floating literal from its text.
pub struct Lexer<P> {
    input: Vec<u8>,
    idx: usize,
    pos: Position,
    reader: P,
}

impl<P: Fn(String) -> Option<u64>> Lexer<P> {
    /// The source.
    pub closed spec fn source(&self) -> Seq<u8> {
        self.input@
    }

    /// The number of bytes consumed so far.
    pub closed spec fn offset(&self) -> int {
        self.idx as int
    }

    /// The position of the next byte.
    pub closed spec fn position(&self) -> Position {
        self.pos
    }

    /// The reader of floating literals.
    pub closed spec fn reader(&self) -> P {
        self.reader
    }

    /// The invariant of a tokenizer: the offset lies within the source, the position is
    /// that of the offset, the source is short enough for its positions to be counted in
    /// 32 bits, and the reader of floating literals is as [`reader_ok`] asks.
    pub open spec fn wf(&self) -> bool {
        &&& 0 <= self.offset() <= self.source().len() <= u32::MAX
        &&& self.position() == position_at(self.source(), self.offset())
        &&& reader_ok(self.reader())
    }

    /// A tokenizer at the start of `input`.
    pub fn new(input: Vec<u8>, reader: P) -> (lexer: Self)
        requires
            input.len() <= u32::MAX,
            reader_ok(reader),
        ensures
            lexer.wf(),
            lexer.source() == input@,
            lexer.offset() == 0,
            lexer.reader() == reader,
    {
        Lexer { input, idx: 0, pos: Position { line: 0, col: 0 }, reader }
    }

    /// A tokenizer at the start of `input`, or nothing where `input` is too long for its
    /// positions to be counted in 32 bits.
    pub fn try_new(input: Vec<u8>, reader: P) -> (r: Option<Self>)
        requires
            reader_ok(reader),
        ensures
            input.len() > u32::MAX ==> r is None,
            input.len() <= u32::MAX ==> (r matches Some(lexer) && lexer.wf() && lexer.source()
                == input@ && lexer.offset() == 0 && lexer.reader() == reader),
    {
        if input.len() > 0xFFFF_FFFF {
            None
        } else {
            Some(Self::new(input, reader))
        }
    }

    /// Consumes the next byte and returns it, or returns nothing at the end of the source.
    pub fn read(&mut self) -> (r: Option<u8>)
        requires
            old(self).wf(),
        ensures
            final(self).wf(),
            final(self).source() == old(self).source(),
            final(self).reader() == old(self).reader(),
            old(self).offset() < old(self).source().len() ==> r == Some(
                old(self).source()[old(self).offset()],
            ) && final(self).offset() == old(self).offset() + 1,
            old(self).offset() >= old(self).source().len() ==> r is None && final(self).offset()
                == old(self).offset(),
    {
        let r = self.peek();
        self.consume();
        r
    }

    /// The next byte, which stays unconsumed, or nothing at the end of the source.
    pub fn peek(&self) -> (r: Option<u8>)
        requires
            self.wf(),
        ensures
            self.offset() < self.source().len() ==> r == Some(self.source()[self.offset()]),
            self.offset() >= self.source().len() ==> r is None,
    {
        if self.idx < self.input.len() {
            Some(self.input[self.idx])
        } else {
            None
        }
    }

    /// Consumes the next byte, if one is left: a newline starts the next line at column
    /// zero, any other byte moves one column on.
    pub fn consume(&mut self)
        requires
            old(self).wf(),
        ensures
            final(self).wf(),
            final(self).source() == old(self).source(),
            final(self).reader() == old(self).reader(),
            final(self).offset() == if old(self).offset() < old(self).source().len() {
                old(self).offset() + 1
            } else {
                old(self).offset()
            },
    {
        if self.idx < self.input.len() {
            proof {
                lemma_position_bound(self.input@, self.idx as int);
                lemma_position_bound(self.input@, self.idx as int + 1);
            }
            let c: u8 = self.input[self.idx];
            if c == NEWLINE {
                self.pos = Position { line: self.pos.line + 1, col: 0 };
            } else {
                self.pos = Position { line: self.pos.line, col: self.pos.col + 1 };
            }
            self.idx = self.idx + 1;
        }
    }

    /// Consumes the whitespace that stands before the next token.
    pub fn skip_spaces(&mut self)
        requires
            old(self).wf(),
        ensures
            final(self).wf(),
            final(self).source() == old(self).source(),
            final(self).reader() == old(self).reader(),
            final(self).offset() == run_end(old(self).source(), old(self).offset(), CharClass::Space),
    {
        self.skip_run(CharClass::Space);
    }

    /// Whether `b` belongs to `class`.
    fn in_class(class: &CharClass, b: u8) -> (r: bool)
        ensures
            r == in_class(*class, b),
    {
        match class {
            CharClass::Space => b == SPACE || b == TAB || b == NEWLINE,
            CharClass::Number => Self::is_alphanumeric(b) || b == DOT,
            CharClass::Word => Self::is_alphanumeric(b) || b == UNDERSCORE,
            CharClass::Symbol => !(b == SPACE || b == TAB || b == NEWLINE) && !Self::is_alphanumeric(b)
                && !Self::is_control(b),
        }
    }

    /// Consumes the longest run of characters of `class`.
    fn skip_run(&mut self, class: CharClass)
        requires
            old(self).wf(),
        ensures
            final(self).wf(),
            final(self).input@ == old(self).input@,
            final(self).reader == old(self).reader,
            final(self).idx == run_end(old(self).input@, old(self).idx as int, class),
    {
        loop
            invariant
                self.wf(),
                self.input@ == old(self).input@,
                self.reader == old(self).reader,
                run_end(self.input@, self.idx as int, class) == run_end(
                    old(self).input@,
                    old(self).idx as int,
                    class,
                ),
            ensures
                self.wf(),
                self.input@ == old(self).input@,
                self.reader == old(self).reader,
                self.idx == run_end(old(self).input@, old(self).idx as int, class),
            decreases self.input.len() - self.idx,
        {
            match self.peek() {
                Some(c) => {
                    if Self::in_class(&class, c) {
                        self.consume();
                    } else {
                        break ;
                    }
                },
                None => {
                    break ;
                },
            }
        }
    }

    /// Whether `b` is a letter or a numeric character.
    fn is_alphanumeric(b: u8) -> (r: bool)
        ensures
            r == is_alphanumeric(b),
    {
        (UPPER_A <= b && b <= UPPER_Z) || (LOWER_A <= b && b <= LOWER_Z) || b == 0xAA || b == 0xB5
            || b == 0xBA || (0xC0 <= b && b <= 0xD6) || (0xD8 <= b && b <= 0xF6) || 0xF8 <= b || (
        DIGIT_0 <= b && b <= DIGIT_9) || b == 0xB2 || b == 0xB3 || b == 0xB9 || (0xBC <= b && b
            <= 0xBE)
    }

    /// The character that the escape sequence of a backslash and `c` stands for in a
    /// literal that `term` ends, where there is one.
    fn match_escseq(c: u8, term: u8) -> (r: Option<u8>)
        ensures
            r == escape(c, term),
    {
        if c == BACKSLASH {
            Some(BACKSLASH)
        } else if c == LOWER_N {
            Some(NEWLINE)
        } else if c == LOWER_T {
            Some(TAB)
        } else if c == LOWER_R {
            Some(RETURN)
        } else if c == DIGIT_0 {
            Some(NUL)
        } else if c == term {
            Some(term)
        } else {
            None
        }
    }

    /// The token that the delimiter `c` is, between `lpos` and the current position, or
    /// nothing where `c` is no delimiter.
    fn match_control(&self, c: u8, lpos: Position) -> (r: Option<TokenContext>)
        ensures
            !is_control(c) ==> r is None,
            is_control(c) ==> (r matches Some(t) && t@ == (TokenContextModel {
                kind: control_token(c),
                lpos,
                rpos: self.pos,
            })),
    {
        let tok = if c == LBRACKET {
            Token::LBracket
        } else if c == RBRACKET {
            Token::RBracket
        } else if c == LPAREN {
            Token::LParen
        } else if c == RPAREN {
            Token::RParen
        } else if c == LBRACE {
            Token::LBrace
        } else if c == RBRACE {
            Token::RBrace
        } else if c == COMMA {
            Token::Comma
        } else if c == DOT {
            Token::Dot
        } else if c == SEMICOLON {
            Token::SemiColon
        } else {
            return None;
        };
        Some(TokenContext { kind: tok, lpos, rpos: self.pos })
    }

    /// Whether `b` is one of the delimiters `[ ] ( ) { } , . ;`.
    fn is_control(b: u8) -> (r: bool)
        ensures
            r == is_control(b),
    {
        b == LBRACKET || b == RBRACKET || b == LPAREN || b == RPAREN || b == LBRACE || b == RBRACE
            || b == COMMA || b == DOT || b == SEMICOLON
    }

    /// Scans the body of a quoted literal up to the terminator `term`, and decodes its
    /// escape sequences. The opening quote, at `lpos`, has been consumed.
    fn scan_text(&mut self, term: u8, lpos: Position) -> (r: Result<
        (String, Position, Position),
        LexError,
    >)
        requires
            old(self).wf(),
        ensures
            final(self).wf(),
            final(self).input@ == old(self).input@,
            final(self).reader == old(self).reader,
            match scan_text_from(old(self).input@, old(self).idx as int, term, Seq::empty()) {
                TextScan::Closed { text, end } => {
                    &&& r matches Ok(found)
                    &&& found.0@ == chars_of(text)
                    &&& found.1 == lpos
                    &&& found.2 == position_at(old(self).input@, end)
                    &&& final(self).idx == end
                },
                TextScan::BadEscape { at } => {
                    &&& r matches Err(e)
                    &&& e@ == (LexErrorModel {
                        kind: LexFault::Escape,
                        text: seq![old(self).input@[at] as char],
                        lpos: position_at(old(self).input@, at - 1),
                        rpos: position_at(old(self).input@, at + 1),
                    })
                    &&& final(self).idx == at + 1
                },
                TextScan::Open { text } => {
                    &&& r matches Err(e)
                    &&& e@ == (LexErrorModel {
                        kind: LexFault::Unterminated,
                        text: chars_of(text),
                        lpos,
                        rpos: position_at(old(self).input@, old(self).input.len() as int),
                    })
                    &&& final(self).idx == old(self).input.len()
                },
            },
    {
        let mut buf: Vec<u8> = Vec::new();
        let ghost src = self.input@;
        let ghost start = self.idx as int;
        loop
            invariant
                self.wf(),
                self.input@ == old(self).input@,
                self.reader == old(self).reader,
                src == self.input@,
                start == old(self).idx,
                scan_text_from(src, self.idx as int, term, buf@) == scan_text_from(
                    src,
                    start,
                    term,
                    Seq::empty(),
                ),
            decreases self.input.len() - self.idx,
        {
            let epos = self.pos;
            match self.read() {
                None => {
                    let text = text_of(&buf, 0, buf.len());
                    proof {
                        assert(buf@.subrange(0, buf.len() as int) =~= buf@);
                    }
                    return Err(LexError { kind: LexFault::Unterminated, text, lpos, rpos: self.pos });
                },
                Some(c) => {
                    if c == BACKSLASH {
                        match self.read() {
                            None => {
                                let text = text_of(&buf, 0, buf.len());
                                proof {
                                    assert(buf@.subrange(0, buf.len() as int) =~= buf@);
                                }
                                return Err(
                                    LexError { kind: LexFault::Unterminated, text, lpos, rpos: self.pos },
                                );
                            },
                            Some(e) => {
                                match Self::match_escseq(e, term) {
                                    Some(d) => {
                                        buf.push(d);
                                    },
                                    None => {
                                        let mut text = String::new();
                                        push_char(&mut text, e as char);
                                        return Err(
                                            LexError {
                                                kind: LexFault::Escape,
                                                text,
                                                lpos: epos,
                                                rpos: self.pos,
                                            },
                                        );
                                    },
                                }
                            },
                        }
                    } else if c == term {
                        let text = text_of(&buf, 0, buf.len());
                        return Ok((text, lpos, self.pos));
                    } else {
                        buf.push(c);
                    }
                },
            }
        }
    }

    /// Scans a character literal, whose opening quote, at `lpos`, has been consumed.
    fn scan_char(&mut self, lpos: Position) -> (r: Result<TokenContext, LexError>)
        requires
            old(self).wf(),
            old(self).idx >= 1,
            lpos == position_at(old(self).input@, old(self).idx - 1),
        ensures
            final(self).wf(),
            final(self).input@ == old(self).input@,
            final(self).reader == old(self).reader,
            final(self).idx == quoted_step(old(self).input@, old(self).idx - 1, QUOTE, true).next,
            scanned(r) == lexed_of(
                old(self).input@,
                quoted_step(old(self).input@, old(self).idx - 1, QUOTE, true),
                reader_fn(old(self).reader),
            ),
    {
        let (text, lpos, rpos) = self.scan_text(QUOTE, lpos)?;
        if text.unicode_len() == 1 {
            let c = text.get_char(0);
            Ok(TokenContext { kind: Token::CharLit(c), lpos, rpos })
        } else {
            Err(LexError { kind: LexFault::Char, text, lpos, rpos })
        }
    }

    /// Scans a string literal, whose opening quote, at `lpos`, has been consumed.
    fn scan_string(&mut self, lpos: Position) -> (r: Result<TokenContext, LexError>)
        requires
            old(self).wf(),
            old(self).idx >= 1,
            lpos == position_at(old(self).input@, old(self).idx - 1),
        ensures
            final(self).wf(),
            final(self).input@ == old(self).input@,
            final(self).reader == old(self).reader,
            final(self).idx == quoted_step(old(self).input@, old(self).idx - 1, DOUBLE_QUOTE, false).next,
            scanned(r) == lexed_of(
                old(self).input@,
                quoted_step(old(self).input@, old(self).idx - 1, DOUBLE_QUOTE, false),
                reader_fn(old(self).reader),
            ),
    {
        let (text, lpos, rpos) = self.scan_text(DOUBLE_QUOTE, lpos)?;
        Ok(TokenContext { kind: Token::StrLit(text), lpos, rpos })
    }

    /// Whether `input` holds a dot from `start` up to `end`.
    fn has_dot(input: &Vec<u8>, start: usize, end: usize) -> (r: bool)
        requires
            start <= end <= input.len(),
        ensures
            r == input@.subrange(start as int, end as int).contains(DOT),
    {
        let ghost lexeme = input@.subrange(start as int, end as int);
        let mut i: usize = start;
        while i < end
            invariant
                start <= i <= end <= input.len(),
                lexeme == input@.subrange(start as int, end as int),
                forall|k: int| 0 <= k < i - start ==> lexeme[k] != DOT,
            decreases end - i,
        {
            if input[i] == DOT {
                proof {
                    assert(lexeme[i - start] == DOT);
                }
                return true;
            }
            i = i + 1;
        }
        false
    }

    /// Scans a number, whose first digit, at offset `start` and position `lpos`, has been
    /// consumed.
    fn scan_number(&mut self, start: usize, lpos: Position) -> (r: Result<TokenContext, LexError>)
        requires
            old(self).wf(),
            old(self).idx == start + 1,
            lpos == position_at(old(self).input@, start as int),
        ensures
            final(self).wf(),
            final(self).input@ == old(self).input@,
            final(self).reader == old(self).reader,
            final(self).idx == number_step(old(self).input@, start as int).next,
            scanned(r) == lexed_of(
                old(self).input@,
                number_step(old(self).input@, start as int),
                reader_fn(old(self).reader),
            ),
            asked(number_step(old(self).input@, start as int), old(self).reader),
    {
        self.skip_run(CharClass::Number);
        proof {
            lemma_run_end_bounds(self.input@, start + 1, CharClass::Number);
        }
        let rpos = self.pos;
        let end: usize = self.idx;
        if Self::has_dot(&self.input, start, end) {
            let text = text_of(&self.input, start, end);
            let copy = text.clone();
            let value = (self.reader)(copy);
            proof {
                assert(reads(self.reader, text@, value));
            }
            float_token(text, value, lpos, rpos)
        } else {
            match parse_int(&self.input, start, end) {
                Some(n) => Ok(TokenContext { kind: Token::IntLit(n), lpos, rpos }),
                None => {
                    let text = text_of(&self.input, start, end);
                    Err(LexError { kind: LexFault::Int, text, lpos, rpos })
                },
            }
        }
    }

    /// Scans a keyword or identifier, whose first character, at offset `start` and
    /// position `lpos`, has been consumed.
    fn scan_keyword(&mut self, start: usize, lpos: Position) -> (r: Result<TokenContext, LexError>)
        requires
            old(self).wf(),
            old(self).idx == start + 1,
            lpos == position_at(old(self).input@, start as int),
        ensures
            final(self).wf(),
            final(self).input@ == old(self).input@,
            final(self).reader == old(self).reader,
            final(self).idx == word_step(old(self).input@, start as int).next,
            scanned(r) == lexed_of(
                old(self).input@,
                word_step(old(self).input@, start as int),
                reader_fn(old(self).reader),
            ),
    {
        self.skip_run(CharClass::Word);
        proof {
            lemma_run_end_bounds(self.input@, start + 1, CharClass::Word);
        }
        let text = text_of(&self.input, start, self.idx);
        let tok = if text_is(&text, "fn") {
            Token::Fn
        } else if text_is(&text, "struct") {
            Token::Struct
        } else if text_is(&text, "type") {
            Token::Type
        } else if text_is(&text, "return") {
            Token::Return
        } else if text_is(&text, "break") {
            Token::Break
        } else if text_is(&text, "continue") {
            Token::Continue
        } else if text_is(&text, "while") {
            Token::While
        } else if text_is(&text, "for") {
            Token::For
        } else if text_is(&text, "in") {
            Token::In
        } else if text_is(&text, "true") {
            Token::True
        } else if text_is(&text, "false") {
            Token::False
        } else if text_is(&text, "import") {
            Token::Import
        } else {
            Token::Iden(text)
        };
        Ok(TokenContext { kind: tok, lpos, rpos: self.pos })
    }

    /// Scans an operator, whose first character, at offset `start` and position `lpos`,
    /// has been consumed.
    fn scan_special(&mut self, start: usize, lpos: Position) -> (r: Result<TokenContext, LexError>)
        requires
            old(self).wf(),
            old(self).idx == start + 1,
            lpos == position_at(old(self).input@, start as int),
        ensures
            final(self).wf(),
            final(self).input@ == old(self).input@,
            final(self).reader == old(self).reader,
            final(self).idx == symbol_step(old(self).input@, start as int).next,
            scanned(r) == lexed_of(
                old(self).input@,
                symbol_step(old(self).input@, start as int),
                reader_fn(old(self).reader),
            ),
    {
        self.skip_run(CharClass::Symbol);
        proof {
            lemma_run_end_bounds(self.input@, start + 1, CharClass::Symbol);
        }
        let text = text_of(&self.input, start, self.idx);
        let tok = if text_is(&text, "*") {
            Token::Operator(Op::Multiply)
        } else if text_is(&text, "**") {
            Token::Operator(Op::Exp)
        } else if text_is(&text, "*=") {
            Token::AssignOp(Aop::Multiply)
        } else if text_is(&text, "**=") {
            Token::AssignOp(Aop::Exp)
        } else if text_is(&text, "-") {
            Token::Operator(Op::Minus)
        } else if text_is(&text, "-=") {
            Token::AssignOp(Aop::Minus)
        } else if text_is(&text, "+") {
            Token::Operator(Op::Plus)
        } else if text_is(&text, "+=") {
            Token::AssignOp(Aop::Plus)
        } else if text_is(&text, "/") {
            Token::Operator(Op::Divide)
        } else if text_is(&text, "/=") {
            Token::AssignOp(Aop::Divide)
        } else if text_is(&text, ":=") {
            Token::Declare
        } else if text_is(&text, "=") {
            Token::Assign
        } else if text_is(&text, "==") {
            Token::Operator(Op::Eq)
        } else if text_is(&text, "!=") {
            Token::Operator(Op::Neq)
        } else if text_is(&text, "<=") {
            Token::Operator(Op::Leq)
        } else if text_is(&text, "<") {
            Token::Operator(Op::Lt)
        } else if text_is(&text, ">=") {
            Token::Operator(Op::Geq)
        } else if text_is(&text, ">") {
            Token::Operator(Op::Gt)
        } else if text_is(&text, "&&") {
            Token::Operator(Op::And)
        } else if text_is(&text, "||") {
            Token::Operator(Op::Or)
        } else if text_is(&text, "!") {
            Token::Operator(Op::Not)
        } else if text_is(&text, "->") {
            Token::Arrow
        } else {
            return Err(LexError { kind: LexFault::Symbol, text, lpos, rpos: self.pos });
        };
        Ok(TokenContext { kind: tok, lpos, rpos: self.pos })
    }

    /// Reads the next token: `Ok(None)` at the end of the source, the located token where
    /// one stands next, and the lexical error where none can be made of what stands next.
    /// The tokenizer goes on after what it has read, also after an error.
    pub fn read_token(&mut self) -> (r: Result<Option<TokenContext>, LexError>)
        requires
            old(self).wf(),
        ensures
            final(self).wf(),
            final(self).source() == old(self).source(),
            final(self).reader() == old(self).reader(),
            final(self).offset() == step_at(old(self).source(), old(self).offset()).next,
            lexed_model(r) == lex_at(
                old(self).source(),
                old(self).offset(),
                reader_fn(old(self).reader()),
            ),
            asked(step_at(old(self).source(), old(self).offset()), old(self).reader()),
    {
        self.skip_spaces();
        proof {
            lemma_run_end_bounds(self.input@, old(self).idx as int, CharClass::Space);
        }
        let lpos = self.pos;
        let start: usize = self.idx;
        match self.read() {
            None => Ok(None),
            Some(c) => {
                match self.match_control(c, lpos) {
                    Some(token) => Ok(Some(token)),
                    None => {
                        let token = if c == QUOTE {
                            self.scan_char(lpos)?
                        } else if c == DOUBLE_QUOTE {
                            self.scan_string(lpos)?
                        } else if DIGIT_0 <= c && c <= DIGIT_9 {
                            self.scan_number(start, lpos)?
                        } else if Self::is_alphanumeric(c) {
                            self.scan_keyword(start, lpos)?
                        } else {
                            self.scan_special(start, lpos)?
                        };
                        Ok(Some(token))
                    },
                }
            },
        }
    }

    /// Reads the tokens that are left, up to the end of the source or the first lexical
    /// error. The positions of the tokens come in order: each token ends no earlier than
    /// it starts, and starts no earlier than the one before it ends.
    pub fn read_tokens(&mut self) -> (r: Result<VecDeque<TokenContext>, LexError>)
        requires
            old(self).wf(),
        ensures
            final(self).wf(),
            final(self).source() == old(self).source(),
            final(self).reader() == old(self).reader(),
            tokens_model(r) == lex_all(
                old(self).source(),
                old(self).offset(),
                reader_fn(old(self).reader()),
            ),
            r matches Ok(tokens) ==> final(self).offset() == final(self).source().len()
                && positions_ordered(token_models(tokens@)),
    {
        let mut tokens: VecDeque<TokenContext> = VecDeque::new();
        let ghost src = self.input@;
        let ghost float_of = reader_fn(self.reader);
        let ghost whole = lex_all(src, self.idx as int, float_of);
        loop
            invariant
                self.wf(),
                self.input@ == old(self).input@,
                self.reader == old(self).reader,
                src == self.input@,
                old(self).idx <= src.len() <= u32::MAX,
                float_of == reader_fn(self.reader),
                whole == lex_all(src, old(self).idx as int, float_of),
                whole == prepend(token_models(tokens@), lex_all(src, self.idx as int, float_of)),
            decreases self.input.len() - self.idx,
        {
            let ghost before = self.idx as int;
            let ghost seen = token_models(tokens@);
            proof {
                lemma_step_bounds(src, before);
            }
            match self.read_token() {
                Err(e) => {
                    return Err(e);
                },
                Ok(None) => {
                    proof {
                        lemma_positions_ordered(src, old(self).idx as int, float_of);
                    }
                    return Ok(tokens);
                },
                Ok(Some(tok)) => {
                    let ghost t = tok@;
                    tokens.push_back(tok);
                    proof {
                        assert(token_models(tokens@) =~= seen.push(t));
                        match lex_all(src, self.idx as int, float_of) {
                            Ok(rest) => {
                                assert(seen + (seq![t] + rest) =~= seen.push(t) + rest);
                            },
                            Err(e) => {},
                        }
                    }
                },
            }
        }
    }
}

/// The outcome `rest` of reading on, after the tokens `seen`.
pub open spec fn prepend(
    seen: Seq<TokenContextModel>,
    rest: Result<Seq<TokenContextModel>, LexErrorModel>,
) -> Result<Seq<TokenContextModel>, LexErrorModel> {
    match rest {
        Ok(tokens) => Ok(seen + tokens),
        Err(e) => Err(e),
    }
}

/// Whether the positions of `tokens` come in order: each token ends no earlier than it
/// starts, and starts no earlier than the tokens before it end.
pub open spec fn positions_ordered(tokens: Seq<TokenContextModel>) -> bool {
    &&& forall|k: int| 0 <= k < tokens.len() ==> (#[trigger] tokens[k]).lpos.precedes(tokens[k].rpos)
    &&& forall|k: int, m: int|
        0 <= k < m < tokens.len() ==> (#[trigger] tokens[k]).rpos.precedes((#[trigger] tokens[m]).lpos)
}

/// Positions never go back: a later offset has a later or equal position.
pub proof fn lemma_position_grows(src: Seq<u8>, i: int, j: int)
    requires
        0 <= i <= j <= src.len() <= u32::MAX,
    ensures
        position_at(src, i).precedes(position_at(src, j)),
    decreases j - i,
{
    lemma_position_bound(src, i);
    lemma_position_bound(src, j);
    if i < j {
        lemma_position_grows(src, i, j - 1);
        lemma_position_bound(src, j - 1);
    }
}

/// The positions of the tokens of a source come in order, and none lies before the
/// position of the offset at which reading started.
pub proof fn lemma_positions_ordered(
    src: Seq<u8>,
    i: int,
    float_of: spec_fn(Seq<char>) -> Option<u64>,
)
    requires
        0 <= i <= src.len() <= u32::MAX,
    ensures
        lex_all(src, i, float_of) matches Ok(tokens) ==> positions_ordered(tokens) && forall|k: int|
            0 <= k < tokens.len() ==> position_at(src, i).precedes((#[trigger] tokens[k]).lpos),
    decreases src.len() - i,
{
    lemma_step_bounds(src, i);
    let step = step_at(src, i);
    if let Lexed::Token(t) = lex_at(src, i, float_of) {
        lemma_position_grows(src, i, step.start);
        lemma_position_grows(src, step.start, step.next);
        lemma_positions_ordered(src, step.next, float_of);
        if let Ok(rest) = lex_all(src, step.next, float_of) {
            let tokens = seq![t] + rest;
            lemma_position_bound(src, i);
            lemma_position_bound(src, step.start);
            lemma_position_bound(src, step.next);
            assert forall|k: int| 0 <= k < tokens.len() implies position_at(src, i).precedes(
                (#[trigger] tokens[k]).lpos,
            ) && tokens[k].lpos.precedes(tokens[k].rpos) by {
                if k > 0 {
                    assert(tokens[k] == rest[k - 1]);
                }
            }
            assert forall|k: int, m: int| 0 <= k < m < tokens.len() implies (#[trigger] tokens[k]).rpos.precedes(
                (#[trigger] tokens[m]).lpos,
            ) by {
                assert(tokens[m] == rest[m - 1]);
                if k > 0 {
                    assert(tokens[k] == rest[k - 1]);
                }
            }
        }
    }
}

/// A run that meets only characters of its class ends where the source ends.
pub proof fn lemma_run_to_end(src: Seq<u8>, i: int, class: CharClass)
    requires
        0 <= i <= src.len(),
        forall|k: int| i <= k < src.len() ==> in_class(class, #[trigger] src[k]),
    ensures
        run_end(src, i, class) == src.len(),
    decreases src.len() - i,
{
    if i < src.len() {
        lemma_run_to_end(src, i + 1, class);
    }
}

/// The one token of a source that is an integer literal and nothing else.
pub open spec fn int_token(text: Seq<u8>) -> TokenContextModel {
    TokenContextModel {
        kind: TokenModel::IntLit(int_literal(text)->0),
        lpos: position_at(text, 0),
        rpos: position_at(text, text.len() as int),
    }
}

/// A source that is one integer literal reads as the one token of its value.
pub proof fn lemma_int_literal_reads(text: Seq<u8>, float_of: spec_fn(Seq<char>) -> Option<u64>)
    requires
        int_literal(text) is Some,
    ensures
        lex_all(text, 0, float_of) == Ok::<Seq<TokenContextModel>, LexErrorModel>(seq![int_token(text)]),
{
    let n = text.len() as int;
    assert forall|k: int| 1 <= k < n implies in_class(CharClass::Number, #[trigger] text[k]) by {
        assert(is_digit(text[k]));
    }
    lemma_run_to_end(text, 1, CharClass::Number);
    assert(text.subrange(0, n) =~= text);
    assert(!text.contains(DOT)) by {
        if text.contains(DOT) {
            let k = choose|k: int| 0 <= k < text.len() && text[k] == DOT;
            assert(is_digit(text[k]));
        }
    }
    assert(lex_all(text, n, float_of) == Ok::<Seq<TokenContextModel>, LexErrorModel>(Seq::empty()));
}

/// Reading an integer literal and writing its value down again round-trips: the literal
/// reads as the one token of its value, and the digits of that value read as the same
/// token kind again.
pub proof fn lemma_int_literal_round_trip(
    text: Seq<u8>,
    float_of: spec_fn(Seq<char>) -> Option<u64>,
)
    requires
        int_literal(text) is Some,
    ensures
        lex_all(text, 0, float_of) == Ok::<Seq<TokenContextModel>, LexErrorModel>(seq![int_token(text)]),
        int_literal(digits_of(int_literal(text)->0 as nat)) == int_literal(text),
        lex_all(digits_of(int_literal(text)->0 as nat), 0, float_of) == Ok::<
            Seq<TokenContextModel>,
            LexErrorModel,
        >(seq![int_token(digits_of(int_literal(text)->0 as nat))]),
{
    let value = int_literal(text)->0 as nat;
    lemma_int_literal_reads(text, float_of);
    lemma_digits_round_trip(value);
    lemma_int_literal_reads(digits_of(value), float_of);
}

} // verus!
