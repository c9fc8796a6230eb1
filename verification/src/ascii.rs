use vstd::prelude::*;

verus! {

// Named ASCII byte values, so that byte-level text code reads as characters.

pub const LF: u8 = 10;
pub const CR: u8 = 13;
pub const SPACE: u8 = 32;
pub const DQUOTE: u8 = 34;
pub const PERCENT: u8 = 37;
pub const AMP: u8 = 38;
pub const APOSTROPHE: u8 = 39;
pub const LPAREN: u8 = 40;
pub const RPAREN: u8 = 41;
pub const COMMA: u8 = 44;
pub const DASH: u8 = 45;
pub const DOT: u8 = 46;
pub const SLASH: u8 = 47;
pub const D0: u8 = 48;
pub const D2: u8 = 50;
pub const D3: u8 = 51;
pub const D4: u8 = 52;
pub const D9: u8 = 57;
pub const COLON: u8 = 58;
pub const SEMI: u8 = 59;
pub const LT: u8 = 60;
pub const EQ: u8 = 61;
pub const GT: u8 = 62;
pub const UA: u8 = 65;
pub const UZ: u8 = 90;
pub const BACKSLASH: u8 = 92;
pub const UNDERSCORE: u8 = 95;
pub const LA: u8 = 97;
pub const LB: u8 = 98;
pub const LC: u8 = 99;
pub const LD: u8 = 100;
pub const LE: u8 = 101;
pub const LF_LETTER: u8 = 102;
pub const LG: u8 = 103;
pub const LH: u8 = 104;
pub const LI: u8 = 105;
pub const LL: u8 = 108;
pub const LM: u8 = 109;
pub const LN: u8 = 110;
pub const LP: u8 = 112;
pub const LS: u8 = 115;
pub const LR: u8 = 114;
pub const LT_LETTER: u8 = 116;
pub const LU: u8 = 117;
pub const LV: u8 = 118;
pub const LX: u8 = 120;
pub const LZ: u8 = 122;

} // verus!
