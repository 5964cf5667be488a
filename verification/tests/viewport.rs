use mandelbrot::escape::Complex;
use mandelbrot::fixed::{saturate_wide, ONE, ONE_SQUARED};
use mandelbrot::viewport::{pixel_coordinate, Command, Dims, Viewport};

const HOME: Viewport = Viewport { scale: ONE, offset_x: 0, offset_y: 0 };

#[test]
fn one_has_32_fractional_bits() {
    assert_eq!(ONE, 1i64 << 32);
    assert_eq!(ONE_SQUARED, (ONE as i128) * (ONE as i128));
}

#[test]
fn centre_pixel_shows_the_origin() {
    let dims = Dims { width: 800, height: 800 };
    assert_eq!(pixel_coordinate(HOME, dims, 400, 400), Complex { re: 0, im: 0 });
}

#[test]
fn corner_pixels_span_the_window() {
    let dims = Dims { width: 800, height: 800 };
    let two = 2 * ONE as i128;
    assert_eq!(pixel_coordinate(HOME, dims, 0, 0), Complex { re: -two, im: -two });
    // 4 * 799 / 800 - 2 = 1.995
    assert_eq!(
        pixel_coordinate(HOME, dims, 799, 799),
        Complex { re: 8568459755, im: 8568459755 }
    );
    assert_eq!(pixel_coordinate(HOME, dims, 799, 0), Complex { re: 8568459755, im: -two });
}

#[test]
fn each_axis_has_its_own_extent() {
    let dims = Dims { width: 800, height: 600 };
    assert_eq!(pixel_coordinate(HOME, dims, 400, 300), Complex { re: 0, im: 0 });
    assert_eq!(
        pixel_coordinate(HOME, dims, 600, 150),
        Complex { re: ONE as i128, im: -(ONE as i128) }
    );
}

#[test]
fn scale_divides_and_offset_shifts() {
    let dims = Dims { width: 800, height: 800 };
    let zoomed = Viewport { scale: 2 * ONE, offset_x: 0, offset_y: 0 };
    assert_eq!(
        pixel_coordinate(zoomed, dims, 0, 800 - 1).re,
        -(ONE as i128)
    );
    let shifted = Viewport { scale: ONE, offset_x: ONE / 2, offset_y: -ONE };
    assert_eq!(
        pixel_coordinate(shifted, dims, 600, 400),
        Complex { re: 3 * ONE as i128 / 2, im: -(ONE as i128) }
    );
    let wide = Viewport { scale: ONE / 2, offset_x: -ONE, offset_y: 0 };
    assert_eq!(pixel_coordinate(wide, dims, 0, 400), Complex { re: -5 * ONE as i128, im: 0 });
}

#[test]
fn coordinates_round_toward_zero() {
    let dims = Dims { width: 3, height: 3 };
    // (4 * 1 - 6) / 3 = -2/3 and (4 * 2 - 6) / 3 = 2/3
    assert_eq!(
        pixel_coordinate(HOME, dims, 1, 2),
        Complex { re: -2863311530, im: 2863311530 }
    );
}

#[test]
fn extreme_viewports_do_not_overflow() {
    let dims = Dims { width: 1, height: 1 };
    let tiny = Viewport { scale: 1, offset_x: 0, offset_y: 0 };
    assert_eq!(
        pixel_coordinate(tiny, dims, 0, 0),
        Complex { re: -36893488147419103232, im: -36893488147419103232 }
    );
    let far = Viewport { scale: 1, offset_x: i64::MIN, offset_y: i64::MAX };
    assert_eq!(
        pixel_coordinate(far, dims, 0, 0),
        Complex {
            re: -36893488147419103232 + i64::MIN as i128,
            im: -36893488147419103232 + i64::MAX as i128,
        }
    );
    let huge = Viewport { scale: i64::MAX, offset_x: 5, offset_y: -5 };
    let dims = Dims { width: u32::MAX, height: u32::MAX };
    // -2 * 2^64 / (2^63 - 1) rounds to -4, and just under 4 rounds to 3.
    assert_eq!(pixel_coordinate(huge, dims, 0, u32::MAX - 2), Complex { re: 1, im: -2 });
}

#[test]
fn new_wants_a_positive_scale() {
    assert_eq!(Viewport::new(ONE, 3, -4), Some(Viewport { scale: ONE, offset_x: 3, offset_y: -4 }));
    assert_eq!(Viewport::new(1, 0, 0), Some(Viewport { scale: 1, offset_x: 0, offset_y: 0 }));
    assert_eq!(Viewport::new(0, 0, 0), None);
    assert_eq!(Viewport::new(-ONE, 0, 0), None);
    assert_eq!(Viewport::new(i64::MIN, 1, 1), None);
}

#[test]
fn panning_moves_by_a_tenth_over_scale() {
    // 2^32 / 10 = 429496729.6
    assert_eq!(HOME.apply(Command::Up), Viewport { scale: ONE, offset_x: 0, offset_y: -429496729 });
    assert_eq!(HOME.apply(Command::Down), Viewport { scale: ONE, offset_x: 0, offset_y: 429496729 });
    assert_eq!(HOME.apply(Command::Left), Viewport { scale: ONE, offset_x: -429496729, offset_y: 0 });
    assert_eq!(HOME.apply(Command::Right), Viewport { scale: ONE, offset_x: 429496729, offset_y: 0 });
    let zoomed = Viewport { scale: 2 * ONE, offset_x: 7, offset_y: 9 };
    assert_eq!(
        zoomed.apply(Command::Right),
        Viewport { scale: 2 * ONE, offset_x: 7 + 214748364, offset_y: 9 }
    );
    assert_eq!(
        zoomed.apply(Command::Up),
        Viewport { scale: 2 * ONE, offset_x: 7, offset_y: 9 - 214748364 }
    );
}

#[test]
fn zooming_scales_by_eleven_tenths() {
    assert_eq!(HOME.apply(Command::ZoomIn), Viewport { scale: 4724464025, offset_x: 0, offset_y: 0 });
    assert_eq!(HOME.apply(Command::ZoomOut), Viewport { scale: 3904515723, offset_x: 0, offset_y: 0 });
    let view = Viewport { scale: 10, offset_x: -1, offset_y: 1 };
    assert_eq!(view.apply(Command::ZoomIn), Viewport { scale: 11, offset_x: -1, offset_y: 1 });
    assert_eq!(view.apply(Command::ZoomOut), Viewport { scale: 9, offset_x: -1, offset_y: 1 });
}

#[test]
fn navigation_stops_at_the_ends_of_the_range() {
    let smallest = Viewport { scale: 1, offset_x: 0, offset_y: 0 };
    assert_eq!(smallest.apply(Command::ZoomOut).scale, 1);
    assert_eq!(smallest.apply(Command::ZoomIn).scale, 1);
    let largest = Viewport { scale: i64::MAX, offset_x: 0, offset_y: 0 };
    assert_eq!(largest.apply(Command::ZoomIn).scale, i64::MAX);
    assert_eq!(largest.apply(Command::ZoomOut).scale, 8384883669867978006);
    assert_eq!(largest.apply(Command::Right).offset_x, 0);
    let edge = Viewport { scale: 1, offset_x: i64::MAX - 5, offset_y: i64::MIN + 5 };
    assert_eq!(edge.apply(Command::Right).offset_x, i64::MAX);
    assert_eq!(edge.apply(Command::Up).offset_y, i64::MIN);
    assert_eq!(edge.apply(Command::Left).offset_x, i64::MAX - 5 - 1844674407370955161);
    assert_eq!(edge.apply(Command::Down).offset_y, i64::MIN + 5 + 1844674407370955161);
}

#[test]
fn saturation_keeps_what_fits() {
    assert_eq!(saturate_wide(0), 0);
    assert_eq!(saturate_wide(-7), -7);
    assert_eq!(saturate_wide(i64::MAX as i128), i64::MAX);
    assert_eq!(saturate_wide(i64::MIN as i128), i64::MIN);
    assert_eq!(saturate_wide(i64::MAX as i128 + 1), i64::MAX);
    assert_eq!(saturate_wide(i64::MIN as i128 - 1), i64::MIN);
    assert_eq!(saturate_wide(i128::MAX), i64::MAX);
    assert_eq!(saturate_wide(i128::MIN), i64::MIN);
}
