use color_layouts::color::Rgba;
use color_layouts::gradients::layout_swatches;
use color_layouts::gradients::rasterize;
use color_layouts::gradients::Swatch;
use color_layouts::LayoutError;

fn ramp(width: usize) -> Vec<Rgba> {
    (0..width)
        .map(|x| Rgba { r: x as u8, g: 255 - x as u8, b: 7, a: 255 })
        .collect()
}

#[test]
fn buffer_has_exact_size_and_identical_rows() {
    let samples = ramp(16);
    let buf = rasterize(&samples, 16, 9).unwrap();
    assert_eq!(buf.len(), 16 * 9 * 4);
    let row0 = &buf[0..16 * 4];
    for r in 1..9 {
        assert_eq!(&buf[r * 16 * 4..(r + 1) * 16 * 4], row0);
    }
}

#[test]
fn pixels_carry_the_sample_bytes_in_order() {
    let samples = ramp(8);
    let buf = rasterize(&samples, 8, 3).unwrap();
    for r in 0..3 {
        for x in 0..8 {
            let at = 4 * (r * 8 + x);
            assert_eq!(buf[at], samples[x].r);
            assert_eq!(buf[at + 1], samples[x].g);
            assert_eq!(buf[at + 2], samples[x].b);
            assert_eq!(buf[at + 3], samples[x].a);
        }
    }
}

#[test]
fn degenerate_gradient_fills_one_color() {
    let c = Rgba { r: 10, g: 200, b: 30, a: 255 };
    let samples = vec![c; 12];
    let buf = rasterize(&samples, 12, 5).unwrap();
    assert_eq!(buf.len(), 12 * 5 * 4);
    for pixel in buf.chunks(4) {
        assert_eq!(pixel, [c.r, c.g, c.b, c.a]);
    }
}

#[test]
fn short_sample_row_underruns() {
    let samples = ramp(7);
    assert_eq!(rasterize(&samples, 8, 2), Err(LayoutError::GradientUnderrun));
}

#[test]
fn extra_samples_are_ignored() {
    let samples = ramp(10);
    let buf = rasterize(&samples, 4, 1).unwrap();
    assert_eq!(buf.len(), 16);
    assert_eq!(buf[12], samples[3].r);
}

#[test]
fn zero_height_buffer_is_empty() {
    let samples = ramp(4);
    let buf = rasterize(&samples, 4, 0).unwrap();
    assert!(buf.is_empty());
}

#[test]
fn swatches_stack_downward() {
    let swatches = layout_swatches(800, 600, 4);
    assert_eq!(swatches.len(), 4);
    // Half the viewport wide, an eighth tall, in thousandths of a unit.
    assert_eq!(
        swatches[0],
        Swatch { width_milli: 400_000, height_milli: 75_000, y_milli: 150_000 }
    );
    // Each step drops 1.1 swatch heights: 82,500 thousandths.
    assert_eq!(swatches[1].y_milli, 67_500);
    assert_eq!(swatches[2].y_milli, -15_000);
    assert_eq!(swatches[3].y_milli, -97_500);
}
