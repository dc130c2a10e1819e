//! Code units that the grammar and the emitted markup are made of.
use vstd::prelude::*;

verus! {

pub const TAB: u16 = 9;
pub const NEWLINE: u16 = 10;
pub const SPACE: u16 = 32;
pub const EXCLAMATION: u16 = 33;
pub const DOUBLE_QUOTE: u16 = 34;
pub const SHARP: u16 = 35;
pub const AMPERSAND: u16 = 38;
pub const SINGLE_QUOTE: u16 = 39;
pub const LEFT_PARENTHESIS: u16 = 40;
pub const RIGHT_PARENTHESIS: u16 = 41;
pub const ASTERISK: u16 = 42;
pub const PLUS: u16 = 43;
pub const COMMA: u16 = 44;
pub const MINUS: u16 = 45;
pub const DOT: u16 = 46;
pub const SLASH: u16 = 47;
pub const DIGIT_0: u16 = 48;
pub const DIGIT_1: u16 = 49;
pub const DIGIT_9: u16 = 57;
pub const COLON: u16 = 58;
pub const SEMICOLON: u16 = 59;
pub const LESS_THAN: u16 = 60;
pub const EQUAL: u16 = 61;
pub const GREATER_THAN: u16 = 62;
pub const BIG_A: u16 = 65;
pub const BIG_I: u16 = 73;
pub const BIG_X: u16 = 88;
pub const BIG_Z: u16 = 90;
pub const LEFT_SQUARE_BRACKET: u16 = 91;
pub const BACKSLASH: u16 = 92;
pub const RIGHT_SQUARE_BRACKET: u16 = 93;
pub const CARET: u16 = 94;
pub const UNDERBAR: u16 = 95;
pub const BACKTICK: u16 = 96;
pub const SMALL_A: u16 = 97;
pub const SMALL_I: u16 = 105;
pub const SMALL_L: u16 = 108;
pub const SMALL_M: u16 = 109;
pub const SMALL_O: u16 = 111;
pub const SMALL_P: u16 = 112;
pub const SMALL_Q: u16 = 113;
pub const SMALL_S: u16 = 115;
pub const SMALL_T: u16 = 116;
pub const SMALL_U: u16 = 117;
pub const SMALL_X: u16 = 120;
pub const SMALL_Z: u16 = 122;
pub const VERTICAL_BAR: u16 = 124;
pub const TILDE: u16 = 126;

} // verus!
