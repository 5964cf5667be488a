//! The frame compositor: one shaded pixel for every position of the grid.

use crate::escape::{escape_result, evaluate};
use crate::palette::{in_palette, lemma_shade_in_palette, shade, shade_spec, Color};
use crate::parallel::{joined, par_flat_map_range, par_map_range, rows_of};
use crate::viewport::{pixel_coordinate, pixel_point, Dims, Viewport};
use vstd::arithmetic::div_mod::{
    lemma_fundamental_div_mod, lemma_fundamental_div_mod_converse, lemma_multiply_divide_lt,
};
use vstd::prelude::*;

verus! {

/// One entry of a frame: a grid position and its colour.
#[derive(Clone, Copy, Debug, PartialEq, Eq)]
pub struct Pixel {
    pub x: u32,
    pub y: u32,
    pub color: Color,
}

/// The iteration cap of the interactive renderer.
pub const MAX_ITER: usize = 1000;

/// The entry for pixel `(x, y)`: its position, and the colour of the escape
/// result of the point that it shows.
pub open spec fn pixel_spec(view: Viewport, dims: Dims, max_iter: usize, x: int, y: int) -> Pixel {
    Pixel {
        x: x as u32,
        y: y as u32,
        color: shade_spec(escape_result(pixel_point(view, dims, x, y), max_iter as nat)),
    }
}

/// Row `y` of the frame, from left to right.
pub open spec fn row_spec(view: Viewport, dims: Dims, max_iter: usize, y: int) -> Seq<Pixel> {
    Seq::new(dims.width as nat, |x: int| pixel_spec(view, dims, max_iter, x, y))
}

/// The rows of the frame, from the top one down.
pub open spec fn rows_spec(view: Viewport, dims: Dims, max_iter: usize) -> Seq<Seq<Pixel>> {
    Seq::new(dims.height as nat, |y: int| row_spec(view, dims, max_iter, y))
}

/// The whole frame in row-major order: entry `k` is pixel
/// `(k mod width, k div width)`.
pub open spec fn frame_spec(view: Viewport, dims: Dims, max_iter: usize) -> Seq<Pixel> {
    Seq::new(
        (dims.width * dims.height) as nat,
        |k: int| pixel_spec(view, dims, max_iter, k % (dims.width as int), k / (dims.width as int)),
    )
}

/// Where pixel `(x, y)` stands in a frame.
pub open spec fn index_of(dims: Dims, x: int, y: int) -> int {
    y * dims.width + x
}

/// Entry `k` of `frame` is the one for pixel `(x, y)`.
pub open spec fn shows(frame: Seq<Pixel>, k: int, x: int, y: int) -> bool {
    0 <= k < frame.len() && frame[k].x == x && frame[k].y == y
}

/// Shades one pixel: maps it to the plane, evaluates the point and colours
/// the result.
pub fn render_pixel(view: Viewport, dims: Dims, max_iter: usize, x: u32, y: u32) -> (p: Pixel)
    requires
        view.wf(),
        x < dims.width,
        y < dims.height,
    ensures
        p == pixel_spec(view, dims, max_iter, x as int, y as int),
{
    let c = pixel_coordinate(view, dims, x, y);
    Pixel { x, y, color: shade(evaluate(c, max_iter)) }
}

/// Shades row `y` of the grid, its pixels in parallel.
pub fn compute_row(y: u32, dims: Dims, view: Viewport, max_iter: usize) -> (row: Vec<Pixel>)
    requires
        view.wf(),
        y < dims.height,
    ensures
        row@ == row_spec(view, dims, max_iter, y as int),
{
    let f = |x: u32| -> (p: Pixel)
        requires
            x < dims.width,
        ensures
            p == pixel_spec(view, dims, max_iter, x as int, y as int),
        { render_pixel(view, dims, max_iter, x, y) };
    let row = par_map_range(dims.width, f);
    assert forall|x: int| 0 <= x < dims.width implies row@[x] == pixel_spec(
        view,
        dims,
        max_iter,
        x,
        y as int,
    ) by {
        let i: u32 = x as u32;
        assert(call_ensures(f, (i,), row@[i as int]));
    }
    assert(row@ =~= row_spec(view, dims, max_iter, y as int));
    row
}

/// Renders the frame: every pixel of the grid exactly once, in row-major
/// order, the rows in parallel. A grid without pixels gives an empty frame.
pub fn render(view: Viewport, dims: Dims, max_iter: usize) -> (frame: Vec<Pixel>)
    requires
        view.wf(),
        dims.width * dims.height <= usize::MAX,
    ensures
        frame@ == frame_spec(view, dims, max_iter),
        frame@.len() == dims.width * dims.height,
{
    let f = |y: u32| -> (row: Vec<Pixel>)
        requires
            y < dims.height,
        ensures
            row@ == row_spec(view, dims, max_iter, y as int),
        { compute_row(y, dims, view, max_iter) };
    proof {
        lemma_frame_is_rows_joined(view, dims, max_iter);
        assert forall|rows: Seq<Vec<Pixel>>| #[trigger]
            rows_of(f, dims.height, rows) implies joined(rows).len() <= usize::MAX by {
            assert(rows.map_values(|row: Vec<Pixel>| row@) =~= rows_spec(view, dims, max_iter));
        }
    }
    let frame = par_flat_map_range(dims.height, f);
    proof {
        let rows = choose|rows: Seq<Vec<Pixel>>| #[trigger]
            rows_of(f, dims.height, rows) && frame@ == joined(rows);
        assert(rows.map_values(|row: Vec<Pixel>| row@) =~= rows_spec(view, dims, max_iter));
    }
    frame
}

/// The frame is its rows, from the top one down, one after the other.
pub proof fn lemma_frame_is_rows_joined(view: Viewport, dims: Dims, max_iter: usize)
    ensures
        frame_spec(view, dims, max_iter) == rows_spec(view, dims, max_iter).flatten(),
{
    let w = dims.width as int;
    let h = dims.height as int;
    let rows = rows_spec(view, dims, max_iter);
    lemma_join_uniform(rows, w as nat);
    let flat = rows.flatten();
    let frame = frame_spec(view, dims, max_iter);
    assert(h * w == w * h) by (nonlinear_arith);
    assert forall|k: int| 0 <= k < flat.len() implies flat[k] == frame[k] by {
        lemma_frame_entry(view, dims, max_iter, k);
        assert(flat[(k / w) * w + k % w] == rows[k / w][k % w]);
    }
    assert(flat =~= frame);
}

/// Coverage: a rendered frame has `width * height` entries; pixel `(x, y)`
/// of the grid stands at `y * width + x`; every entry is a pixel of the
/// grid; and no two entries have the same position.
pub proof fn lemma_frame_covers_grid(
    frame: Seq<Pixel>,
    view: Viewport,
    dims: Dims,
    max_iter: usize,
)
    requires
        frame == frame_spec(view, dims, max_iter),
    ensures
        frame.len() == dims.width * dims.height,
        forall|x: int, y: int|
            #![trigger index_of(dims, x, y)]
            0 <= x < dims.width && 0 <= y < dims.height ==> shows(frame, index_of(dims, x, y), x, y),
        forall|k: int|
            0 <= k < frame.len() ==> (#[trigger] frame[k]).x < dims.width && frame[k].y
                < dims.height,
        forall|j: int, k: int|
            0 <= j < k < frame.len() ==> (#[trigger] frame[j]).x != (#[trigger] frame[k]).x
                || frame[j].y != frame[k].y,
{
    let w = dims.width as int;
    let h = dims.height as int;
    assert forall|x: int, y: int|
        #![trigger index_of(dims, x, y)]
        0 <= x < w && 0 <= y < h implies shows(frame, index_of(dims, x, y), x, y) by {
        assert(0 <= y * w + x < w * h) by (nonlinear_arith)
            requires
                0 <= x < w,
                0 <= y < h,
        ;
        lemma_fundamental_div_mod_converse(index_of(dims, x, y), w, y, x);
    }
    assert forall|k: int| 0 <= k < w * h implies (#[trigger] frame[k]).x < w && frame[k].y < h by {
        lemma_frame_entry(view, dims, max_iter, k);
    }
    assert forall|j: int, k: int| 0 <= j < k < w * h implies (#[trigger] frame[j]).x != (
    #[trigger] frame[k]).x || frame[j].y != frame[k].y by {
        lemma_frame_entry(view, dims, max_iter, j);
        lemma_frame_entry(view, dims, max_iter, k);
    }
}

/// Determinism: two frames rendered from the same viewport, grid and
/// iteration cap are equal.
pub proof fn lemma_render_deterministic(
    first: Seq<Pixel>,
    second: Seq<Pixel>,
    view: Viewport,
    dims: Dims,
    max_iter: usize,
)
    requires
        first == frame_spec(view, dims, max_iter),
        second == frame_spec(view, dims, max_iter),
    ensures
        first == second,
{
}

/// Palette: every entry of a rendered frame has the colour that the
/// palette gives to the escape result of the point that its pixel shows.
pub proof fn lemma_frame_in_palette(
    frame: Seq<Pixel>,
    view: Viewport,
    dims: Dims,
    max_iter: usize,
    k: int,
)
    requires
        frame == frame_spec(view, dims, max_iter),
        0 <= k < frame.len(),
    ensures
        in_palette(
            frame[k].color,
            escape_result(
                pixel_point(view, dims, frame[k].x as int, frame[k].y as int),
                max_iter as nat,
            ),
        ),
{
    lemma_frame_entry(view, dims, max_iter, k);
    lemma_shade_in_palette(
        escape_result(
            pixel_point(view, dims, frame[k].x as int, frame[k].y as int),
            max_iter as nat,
        ),
    );
}

/// Entry `k` of a frame is pixel `(k mod width, k div width)`, which lies in
/// the grid.
pub proof fn lemma_frame_entry(view: Viewport, dims: Dims, max_iter: usize, k: int)
    requires
        0 <= k < dims.width * dims.height,
    ensures
        dims.width > 0,
        0 <= k % (dims.width as int) < dims.width,
        0 <= k / (dims.width as int) < dims.height,
        frame_spec(view, dims, max_iter)[k].x == k % (dims.width as int),
        frame_spec(view, dims, max_iter)[k].y == k / (dims.width as int),
        k == index_of(dims, k % (dims.width as int), k / (dims.width as int)),
        k == (k / (dims.width as int)) * dims.width + k % (dims.width as int),
{
    let w = dims.width as int;
    let h = dims.height as int;
    assert(w > 0) by (nonlinear_arith)
        requires
            0 <= k < w * h,
            w >= 0,
    ;
    lemma_fundamental_div_mod(k, w);
    lemma_multiply_divide_lt(k, w, h);
    assert(0 <= k / w) by (nonlinear_arith)
        requires
            k >= 0,
            w > 0,
    ;
    assert(k == (k / w) * w + k % w) by (nonlinear_arith)
        requires
            k == w * (k / w) + k % w,
    ;
}

/// Rows of one length, joined: the result has `rows.len() * w` items, and
/// item `j` of row `i` stands at `i * w + j`.
proof fn lemma_join_uniform<A>(rows: Seq<Seq<A>>, w: nat)
    requires
        forall|i: int| 0 <= i < rows.len() ==> #[trigger] rows[i].len() == w,
    ensures
        rows.flatten().len() == rows.len() * w,
        forall|i: int, j: int|
            0 <= i < rows.len() && 0 <= j < w ==> rows.flatten()[i * w + j] == #[trigger] rows[i][j],
    decreases rows.len(),
{
    if rows.len() == 0 {
        assert(rows.len() * w == 0) by (nonlinear_arith)
            requires
                rows.len() == 0,
        ;
    } else {
        let rest = rows.drop_first();
        assert forall|i: int| 0 <= i < rest.len() implies #[trigger] rest[i].len() == w by {
            assert(rest[i] == rows[i + 1]);
        }
        lemma_join_uniform(rest, w);
        assert(rows.flatten() == rows.first() + rest.flatten());
        assert(rows.len() * w == w + rest.len() * w) by (nonlinear_arith)
            requires
                rows.len() == rest.len() + 1,
        ;
        assert forall|i: int, j: int| 0 <= i < rows.len() && 0 <= j < w implies rows.flatten()[i
            * w + j] == #[trigger] rows[i][j] by {
            if i > 0 {
                assert(i * w + j == w + ((i - 1) * w + j)) by (nonlinear_arith);
                assert(0 <= (i - 1) * w + j < rest.len() * w) by (nonlinear_arith)
                    requires
                        0 <= i - 1 < rest.len(),
                        0 <= j < w,
                ;
                assert(rest[i - 1] == rows[i]);
                assert(rest.flatten()[(i - 1) * w + j] == rest[i - 1][j]);
            } else {
                assert(i * w + j == j) by (nonlinear_arith)
                    requires
                        i == 0,
                ;
            }
        }
    }
}

} // verus!
