//! The viewport: which part of the plane the pixel grid shows, and how the
//! navigation commands move it.

use crate::escape::Complex;
use crate::fixed::{
    lemma_trunc_div_magnitude, saturate, saturate_wide, trunc_div, ONE, ONE_SQUARED,
};
use vstd::prelude::*;

verus! {

/// Pan and zoom. `scale` is the zoom factor (1.0 shows the square from -2 to
/// 2 on both axes) and the offsets shift the view; all three are fixed-point
/// numbers.
#[derive(Clone, Copy, Debug, PartialEq, Eq)]
pub struct Viewport {
    pub scale: i64,
    pub offset_x: i64,
    pub offset_y: i64,
}

/// The size of the pixel grid. A grid with a side of 0 has no pixels.
#[derive(Clone, Copy, Debug, PartialEq, Eq)]
pub struct Dims {
    pub width: u32,
    pub height: u32,
}

/// One navigation step.
#[derive(Clone, Copy, Debug, PartialEq, Eq)]
pub enum Command {
    /// Lowers `offset_y` by one pan step.
    Up,
    /// Raises `offset_y` by one pan step.
    Down,
    /// Lowers `offset_x` by one pan step.
    Left,
    /// Raises `offset_x` by one pan step.
    Right,
    /// Multiplies `scale` by 1.1.
    ZoomIn,
    /// Divides `scale` by 1.1.
    ZoomOut,
}

/// The plane coordinate of grid position `index` on an axis of `extent`
/// positions: `(index / extent * 4 - 2) / scale + offset`. The quotient
/// `(4 * index - 2 * extent) / (extent * scale)` is taken once, exactly, and
/// rounded toward zero to 32 fractional bits.
pub open spec fn axis_point(index: int, extent: int, scale: int, offset: int) -> int {
    trunc_div((4 * index - 2 * extent) * ONE_SQUARED, extent * scale) + offset
}

/// The point of the plane that pixel `(x, y)` shows.
pub open spec fn pixel_point(view: Viewport, dims: Dims, x: int, y: int) -> Complex {
    Complex {
        re: axis_point(x, dims.width as int, view.scale as int, view.offset_x as int) as i128,
        im: axis_point(y, dims.height as int, view.scale as int, view.offset_y as int) as i128,
    }
}

/// The distance of one pan step: `0.1 / scale`, rounded down to 32
/// fractional bits.
pub open spec fn pan_step(scale: int) -> int {
    (ONE_SQUARED as int) / (10 * scale)
}

/// The zoom factor after zooming in: `scale * 1.1`, rounded down.
pub open spec fn zoomed_in(scale: int) -> int {
    scale * 11 / 10
}

/// The zoom factor after zooming out: `scale / 1.1`, rounded down, but no
/// less than the smallest positive fixed-point number.
pub open spec fn zoomed_out(scale: int) -> int {
    if scale * 10 / 11 < 1 {
        1
    } else {
        scale * 10 / 11
    }
}

/// An axis coordinate lies within `2^98` of 0.
pub proof fn lemma_axis_point_bound(index: int, extent: int, scale: int, offset: int)
    requires
        0 <= index < extent <= u32::MAX,
        0 < scale <= i64::MAX,
        i64::MIN <= offset <= i64::MAX,
    ensures
        0 < extent * scale < 0x8000_0000_0000_0000_0000_0000,
        -0x4_0000_0000_0000_0000_0000_0000 < axis_point(index, extent, scale, offset)
            < 0x4_0000_0000_0000_0000_0000_0000,
{
    assert(0 < extent * scale < 0x8000_0000_0000_0000_0000_0000) by (nonlinear_arith)
        requires
            0 < extent <= 0xffff_ffff,
            0 < scale <= 0x7fff_ffff_ffff_ffff,
    ;
    lemma_trunc_div_magnitude((4 * index - 2 * extent) * ONE_SQUARED, extent * scale);
}

fn axis_coordinate(index: u32, extent: u32, scale: i64, offset: i64) -> (r: i128)
    requires
        index < extent,
        scale > 0,
    ensures
        r == axis_point(index as int, extent as int, scale as int, offset as int),
{
    proof {
        lemma_axis_point_bound(index as int, extent as int, scale as int, offset as int);
    }
    let numer: i128 = (4 * (index as i128) - 2 * (extent as i128)) * ONE_SQUARED;
    let denom: i128 = (extent as i128) * (scale as i128);
    numer / denom + (offset as i128)
}

/// Maps pixel `(x, y)` of the grid to the point of the plane that it shows.
pub fn pixel_coordinate(view: Viewport, dims: Dims, x: u32, y: u32) -> (c: Complex)
    requires
        view.wf(),
        x < dims.width,
        y < dims.height,
    ensures
        c == pixel_point(view, dims, x as int, y as int),
{
    Complex {
        re: axis_coordinate(x, dims.width, view.scale, view.offset_x),
        im: axis_coordinate(y, dims.height, view.scale, view.offset_y),
    }
}

impl Viewport {
    /// A viewport is well formed when its zoom factor is positive.
    pub open spec fn wf(self) -> bool {
        self.scale > 0
    }

    /// The viewport after one navigation step. Panning moves an offset by
    /// `0.1 / scale`, zooming multiplies or divides the zoom factor by 1.1;
    /// a value that would leave the 64-bit range stops at its end.
    pub open spec fn apply_spec(self, cmd: Command) -> Viewport {
        match cmd {
            Command::Up => Viewport {
                offset_y: saturate(self.offset_y - pan_step(self.scale as int)),
                ..self
            },
            Command::Down => Viewport {
                offset_y: saturate(self.offset_y + pan_step(self.scale as int)),
                ..self
            },
            Command::Left => Viewport {
                offset_x: saturate(self.offset_x - pan_step(self.scale as int)),
                ..self
            },
            Command::Right => Viewport {
                offset_x: saturate(self.offset_x + pan_step(self.scale as int)),
                ..self
            },
            Command::ZoomIn => Viewport { scale: saturate(zoomed_in(self.scale as int)), ..self },
            Command::ZoomOut => Viewport { scale: saturate(zoomed_out(self.scale as int)), ..self },
        }
    }

    /// Makes a viewport, if the zoom factor is positive.
    pub fn new(scale: i64, offset_x: i64, offset_y: i64) -> (v: Option<Viewport>)
        ensures
            v is Some <==> scale > 0,
            v matches Some(view) ==> view == (Viewport { scale, offset_x, offset_y }) && view.wf(),
    {
        if scale > 0 {
            Some(Viewport { scale, offset_x, offset_y })
        } else {
            None
        }
    }

    /// Applies one navigation step.
    pub fn apply(self, cmd: Command) -> (next: Viewport)
        requires
            self.wf(),
        ensures
            next == self.apply_spec(cmd),
            next.wf(),
    {
        let scale: i128 = self.scale as i128;
        let step: i128 = ONE_SQUARED / (10 * scale);
        match cmd {
            Command::Up => Viewport {
                offset_y: saturate_wide(self.offset_y as i128 - step),
                ..self
            },
            Command::Down => Viewport {
                offset_y: saturate_wide(self.offset_y as i128 + step),
                ..self
            },
            Command::Left => Viewport {
                offset_x: saturate_wide(self.offset_x as i128 - step),
                ..self
            },
            Command::Right => Viewport {
                offset_x: saturate_wide(self.offset_x as i128 + step),
                ..self
            },
            Command::ZoomIn => Viewport { scale: saturate_wide(scale * 11 / 10), ..self },
            Command::ZoomOut => {
                let smaller: i128 = scale * 10 / 11;
                Viewport { scale: saturate_wide(if smaller < 1 { 1 } else { smaller }), ..self }
            },
        }
    }
}

} // verus!
