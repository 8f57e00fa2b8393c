//! Colour tables: three bytes (red, green, blue) per colour index.

use vstd::prelude::*;
use vstd::slice::*;
use vstd::string::*;
use crate::decimal::{append_decimal, decimal};

verus! {

/// The colour index whose entry is drawn black in rendered frames.
pub const BLACK_INDEX: usize = 4;

/// Whether `palette` holds a full entry for colour `num`, at offsets that a
/// byte-sized index can still reach.
pub open spec fn has_color(palette: Seq<u8>, num: u8) -> bool {
    3 * num + 2 <= u8::MAX && 3 * num + 2 < palette.len()
}

/// The CSS colour notation `rgb(r, g, b)` of one palette entry.
pub open spec fn rgb_text(r: u8, g: u8, b: u8) -> Seq<char> {
    "rgb("@ + decimal(r as nat) + ", "@ + decimal(g as nat) + ", "@ + decimal(b as nat) + ")"@
}

/// Executable form of [`has_color`].
pub fn color_in_range(palette: &[u8], num: u8) -> (ok: bool)
    ensures
        ok == has_color(palette@, num),
{
    num <= 84 && 3 * (num as usize) + 2 < palette.len()
}

/// The CSS colour notation of colour `num` of `palette`.
pub fn get_color(palette: &[u8], num: u8) -> (color: String)
    requires
        has_color(palette@, num),
    ensures
        color@ == rgb_text(
            palette@[3 * num as int],
            palette@[3 * num + 1],
            palette@[3 * num + 2],
        ),
{
    let base: usize = 3 * (num as usize);
    let mut color = String::from_str("rgb(");
    append_decimal(&mut color, palette[base] as u64);
    color.append(", ");
    append_decimal(&mut color, palette[base + 1] as u64);
    color.append(", ");
    append_decimal(&mut color, palette[base + 2] as u64);
    color.append(")");
    color
}

/// What [`prepare_palette`] returns: `palette` with the entry of
/// [`BLACK_INDEX`] set to black.
pub open spec fn prepared(palette: Seq<u8>) -> Seq<u8> {
    Seq::new(
        palette.len(),
        |i: int| if 3 * BLACK_INDEX <= i < 3 * BLACK_INDEX + 3 { 0u8 } else { palette[i] },
    )
}

/// Copies `palette` and sets the entry of [`BLACK_INDEX`] to black.
pub fn prepare_palette(palette: &[u8]) -> (out: Vec<u8>)
    requires
        palette@.len() >= 3 * BLACK_INDEX + 3,
    ensures
        out@ == prepared(palette@),
{
    let mut out = slice_to_vec(palette);
    out[3 * BLACK_INDEX] = 0;
    out[3 * BLACK_INDEX + 1] = 0;
    out[3 * BLACK_INDEX + 2] = 0;
    assert(out@ =~= prepared(palette@));
    out
}

} // verus!
