use mandelbrot::escape::EscapeResult;
use mandelbrot::fixed::ONE;
use mandelbrot::palette::{shade, Color, GREEN_STEP};

fn channel(raw: i64) -> f32 {
    raw as f32 / 4294967296.0
}

#[test]
fn bounded_is_opaque_black() {
    let color = shade(EscapeResult::Bounded);
    assert_eq!(color, Color { red: 0, green: 0, blue: 0, alpha: ONE });
    assert_eq!(
        [channel(color.red), channel(color.green), channel(color.blue), channel(color.alpha)],
        [0.0, 0.0, 0.0, 1.0]
    );
}

#[test]
fn escaped_is_a_green_level() {
    assert_eq!(
        shade(EscapeResult::Escaped(1)),
        Color { red: 0, green: 16777216, blue: 0, alpha: ONE }
    );
    assert_eq!(
        shade(EscapeResult::Escaped(128)),
        Color { red: 0, green: ONE / 2, blue: 0, alpha: ONE }
    );
    assert_eq!(
        shade(EscapeResult::Escaped(255)),
        Color { red: 0, green: ONE - GREEN_STEP, blue: 0, alpha: ONE }
    );
}

#[test]
fn green_bands_repeat_every_256_steps() {
    assert_eq!(shade(EscapeResult::Escaped(256)).green, 0);
    assert_eq!(shade(EscapeResult::Escaped(257)).green, GREEN_STEP);
    assert_eq!(shade(EscapeResult::Escaped(999)).green, 231 * GREEN_STEP);
    assert_eq!(shade(EscapeResult::Escaped(usize::MAX)).green, 255 * GREEN_STEP);
}

#[test]
fn every_colour_obeys_the_palette() {
    for n in 0usize..1000 {
        let color = shade(EscapeResult::Escaped(n));
        assert_eq!(color.red, 0);
        assert_eq!(color.blue, 0);
        assert_eq!(color.alpha, ONE);
        assert!(0 <= color.green && color.green < ONE);
        assert_eq!(channel(color.green), (n % 256) as f32 / 256.0);
        assert_eq!(channel(color.alpha), 1.0);
    }
}
