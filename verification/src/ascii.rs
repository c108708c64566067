//! Names for the bytes that the tokenizer tells apart.

use vstd::prelude::*;

verus! {

/// A space.
pub const SPACE: u8 = 32;

/// A tab.
pub const TAB: u8 = 9;

/// A newline.
pub const NEWLINE: u8 = 10;

/// A carriage return.
pub const RETURN: u8 = 13;

/// The character of the number zero.
pub const NUL: u8 = 0;

/// `'`, which opens and closes a character literal.
pub const QUOTE: u8 = 39;

/// `"`, which opens and closes a string literal.
pub const DOUBLE_QUOTE: u8 = 34;

/// `\\`, which starts an escape sequence.
pub const BACKSLASH: u8 = 92;

/// `.`
pub const DOT: u8 = 46;

/// `,`
pub const COMMA: u8 = 44;

/// `;`
pub const SEMICOLON: u8 = 59;

/// `_`
pub const UNDERSCORE: u8 = 95;

/// `(`
pub const LPAREN: u8 = 40;

/// `)`
pub const RPAREN: u8 = 41;

/// `[`
pub const LBRACKET: u8 = 91;

/// `]`
pub const RBRACKET: u8 = 93;

/// `{`
pub const LBRACE: u8 = 123;

/// `}`
pub const RBRACE: u8 = 125;

/// The digit `0`.
pub const DIGIT_0: u8 = 48;

/// The digit `9`.
pub const DIGIT_9: u8 = 57;

/// The letter `A`.
pub const UPPER_A: u8 = 65;

/// The letter `Z`.
pub const UPPER_Z: u8 = 90;

/// The letter `a`.
pub const LOWER_A: u8 = 97;

/// The letter `z`.
pub const LOWER_Z: u8 = 122;

/// The letter `n`.
pub const LOWER_N: u8 = 110;

/// The letter `r`.
pub const LOWER_R: u8 = 114;

/// The letter `t`.
pub const LOWER_T: u8 = 116;

} // verus!
