//! Byte values of the ASCII characters the grammar mentions.

use vstd::prelude::*;

verus! {

pub const B_TAB: u8 = 9;

pub const B_LF: u8 = 10;

pub const B_CR: u8 = 13;

pub const B_SP: u8 = 32;

pub const B_BANG: u8 = 33;

pub const B_DQ: u8 = 34;

pub const B_SQ: u8 = 39;

pub const B_PLUS: u8 = 43;

pub const B_MINUS: u8 = 45;

pub const B_DOT: u8 = 46;

pub const B_SLASH: u8 = 47;

pub const B_0: u8 = 48;

pub const B_9: u8 = 57;

pub const B_COLON: u8 = 58;

pub const B_LT: u8 = 60;

pub const B_EQ: u8 = 61;

pub const B_GT: u8 = 62;

pub const B_QUESTION: u8 = 63;

pub const B_UP_A: u8 = 65;

pub const B_UP_T: u8 = 84;

pub const B_UP_Z: u8 = 90;

pub const B_UNDER: u8 = 95;

pub const B_A: u8 = 97;

pub const B_D: u8 = 100;

pub const B_E: u8 = 101;

pub const B_G: u8 = 103;

pub const B_I: u8 = 105;

pub const B_K: u8 = 107;

pub const B_L: u8 = 108;

pub const B_M: u8 = 109;

pub const B_N: u8 = 110;

pub const B_O: u8 = 111;

pub const B_P: u8 = 112;

pub const B_R: u8 = 114;

pub const B_S: u8 = 115;

pub const B_T: u8 = 116;

pub const B_X: u8 = 120;

pub const B_Z: u8 = 122;

} // verus!
