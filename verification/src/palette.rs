//! The palette: bounded points are black, escaping points are shaded in
//! green bands that repeat every 256 steps.

use crate::escape::EscapeResult;
use crate::fixed::ONE;
use vstd::prelude::*;

verus! {

/// An RGBA colour. Each channel is a fixed-point number between 0.0 and 1.0.
#[derive(Clone, Copy, Debug, PartialEq, Eq)]
pub struct Color {
    pub red: i64,
    pub green: i64,
    pub blue: i64,
    pub alpha: i64,
}

/// Number of green levels in one band.
pub const BAND: usize = 256;

/// 1/256 in fixed point: the distance between two green levels.
pub const GREEN_STEP: i64 = 16777216;

/// The green level of a point that escapes at step `n`: `(n mod 256) / 256`.
pub open spec fn green_level(n: usize) -> i64 {
    ((n % BAND) * GREEN_STEP) as i64
}

/// The colour of an escape result: opaque black for a bounded point, an
/// opaque green of level `(n mod 256) / 256` for one that escapes at step `n`.
pub open spec fn shade_spec(r: EscapeResult) -> Color {
    match r {
        EscapeResult::Escaped(n) => Color { red: 0, green: green_level(n), blue: 0, alpha: ONE },
        EscapeResult::Bounded => Color { red: 0, green: 0, blue: 0, alpha: ONE },
    }
}

/// Whether `color` obeys the palette for the result `r`: opaque, neither red
/// nor blue, green at least 0 and below 1, no green for a bounded point and
/// `(n mod 256) / 256` for a point that escapes at step `n`.
pub open spec fn in_palette(color: Color, r: EscapeResult) -> bool {
    &&& color.alpha == ONE
    &&& color.red == 0
    &&& color.blue == 0
    &&& 0 <= color.green < ONE
    &&& r is Bounded ==> color.green == 0
    &&& r matches EscapeResult::Escaped(n) ==> color.green * 256 == (n % 256) * ONE
}

/// The colour that `shade_spec` gives obeys the palette.
pub proof fn lemma_shade_in_palette(r: EscapeResult)
    ensures
        in_palette(shade_spec(r), r),
{
}

/// Maps an escape result to its colour.
pub fn shade(r: EscapeResult) -> (color: Color)
    ensures
        color == shade_spec(r),
        in_palette(color, r),
{
    match r {
        EscapeResult::Escaped(n) => {
            let level: i64 = (n % BAND) as i64;
            Color { red: 0, green: level * GREEN_STEP, blue: 0, alpha: ONE }
        },
        EscapeResult::Bounded => Color { red: 0, green: 0, blue: 0, alpha: ONE },
    }
}

} // verus!
