//! The colors of the screen, as numbers of the 256-color palette.

use vstd::prelude::*;

verus! {

pub const FG: u8 = 252;
pub const FG_BRIGHT: u8 = 255;
pub const FG_MUTED: u8 = 245;
pub const FG_DIM: u8 = 240;
pub const BG_BAR: u8 = 235;
pub const BG_NOW: u8 = 234;
pub const ACCENT: u8 = 28;
pub const CYAN: u8 = 51;
pub const AMBER: u8 = 220;
pub const OK: u8 = 156;
pub const ERR: u8 = 196;

/// Success, warning and failure have colors of their own.
pub proof fn law_colors()
    ensures
        OK == 156,
        AMBER == 220,
        ERR == 196,
        ACCENT == 28,
        CYAN == 51,
        FG == 252,
        FG_BRIGHT == 255,
        FG_MUTED == 245,
        FG_DIM == 240,
{
}

}
