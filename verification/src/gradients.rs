//! Gradient swatches: packing sampled colors into a pixel buffer.
//!
//! The color-space library that interpolates between two colors is an
//! external collaborator; it hands the rasterizer a row of linear-light
//! RGBA samples.  The rasterizer packs the first `width` samples into a
//! row-major RGBA8 buffer of `width * height * 4` bytes, every scanline
//! identical.

use vstd::prelude::*;

use crate::color::Color;
use crate::color::ColorName;
use crate::color::Rgba;
use crate::LayoutError;

verus! {

/// The packed buffer: `height` scanlines, each the four RGBA bytes of
/// the first `width` samples in order.
pub open spec fn packed_buffer(samples: Seq<Rgba>, width: int, height: int) -> Seq<u8> {
    Seq::new((4 * width * height) as nat, |b: int| samples[(b / 4) % width].byte(b % 4))
}

/// Packs one gradient row into a row-major RGBA8 pixel buffer, repeating
/// the row over every scanline.
///
/// `samples` is the sampler's output for a requested width of `width`;
/// if it came up short the rasterizer refuses with `GradientUnderrun`
/// rather than substitute a color.  Extra samples beyond `width` are
/// ignored.
pub fn rasterize(samples: &Vec<Rgba>, width: usize, height: usize) -> (r: Result<
    Vec<u8>,
    LayoutError,
>)
    requires
        4 * width * height <= usize::MAX,
    ensures
        match r {
            Ok(buf) => samples@.len() >= width && buf@ == packed_buffer(
                samples@,
                width as int,
                height as int,
            ),
            Err(e) => e == LayoutError::GradientUnderrun && samples@.len() < width,
        },
{
    if samples.len() < width {
        return Err(LayoutError::GradientUnderrun);
    }
    let ghost w_i = width as int;
    let mut buf: Vec<u8> = Vec::new();
    proof {
        assert(4 * w_i * 0 == 0) by (nonlinear_arith);
    }
    for row in 0..height
        invariant
            samples@.len() >= width,
            4 * width * height <= usize::MAX,
            w_i == width as int,
            buf@.len() == 4 * w_i * row,
            forall|b: int|
                0 <= b < buf@.len() ==> buf@[b] == samples@[(b / 4) % w_i].byte(b % 4),
    {
        for x in 0..width
            invariant
                samples@.len() >= width,
                4 * width * height <= usize::MAX,
                w_i == width as int,
                row < height,
                buf@.len() == 4 * w_i * row + 4 * x,
                forall|b: int|
                    0 <= b < buf@.len() ==> buf@[b] == samples@[(b / 4) % w_i].byte(b % 4),
        {
            proof {
                assert(4 * w_i * row + 4 * x + 4 <= 4 * w_i * height) by (nonlinear_arith)
                    requires
                        0 <= row < height,
                        0 <= x < w_i,
                ;
                assert(4 * w_i * height <= usize::MAX);
            }
            let s = samples[x];
            let ghost base = buf@.len() as int;
            buf.push(s.r);
            buf.push(s.g);
            buf.push(s.b);
            buf.push(s.a);
            proof {
                let q = w_i * (row as int) + (x as int);
                assert(base == 4 * q) by (nonlinear_arith)
                    requires
                        base == 4 * w_i * (row as int) + 4 * (x as int),
                        q == w_i * (row as int) + (x as int),
                ;
                vstd::arithmetic::div_mod::lemma_fundamental_div_mod_converse(base + 0, 4, q, 0);
                vstd::arithmetic::div_mod::lemma_fundamental_div_mod_converse(base + 1, 4, q, 1);
                vstd::arithmetic::div_mod::lemma_fundamental_div_mod_converse(base + 2, 4, q, 2);
                vstd::arithmetic::div_mod::lemma_fundamental_div_mod_converse(base + 3, 4, q, 3);
                assert(q % w_i == x as int) by {
                    vstd::arithmetic::div_mod::lemma_mod_multiples_vanish(
                        row as int,
                        x as int,
                        w_i,
                    );
                    vstd::arithmetic::div_mod::lemma_small_mod(x as nat, w_i as nat);
                }
            }
        }
        proof {
            assert(4 * w_i * (row + 1) == 4 * w_i * row + 4 * w_i) by (nonlinear_arith);
        }
    }
    proof {
        assert(buf@ =~= packed_buffer(samples@, w_i, height as int));
    }
    Ok(buf)
}

/// Scanline `r` of a packed buffer.
pub open spec fn buffer_row(buf: Seq<u8>, width: int, r: int) -> Seq<u8> {
    buf.subrange(4 * width * r, 4 * width * (r + 1))
}

/// LAW (identical rows): every scanline of the packed buffer is
/// byte-identical to scanline zero.
pub proof fn lemma_rows_identical(samples: Seq<Rgba>, width: int, height: int, r: int)
    requires
        1 <= width,
        0 <= r < height,
    ensures
        buffer_row(packed_buffer(samples, width, height), width, r) == buffer_row(
            packed_buffer(samples, width, height),
            width,
            0,
        ),
{
    let buf = packed_buffer(samples, width, height);
    assert(4 * width * (r + 1) <= 4 * width * height && 4 * width * (r + 1) == 4 * width * r + 4
        * width && 4 * width <= 4 * width * height && 0 <= 4 * width * r) by (nonlinear_arith)
        requires
            1 <= width,
            0 <= r < height,
    ;
    assert forall|b: int| 0 <= b < 4 * width implies buffer_row(buf, width, r)[b] == buffer_row(
        buf,
        width,
        0,
    )[b] by {
        vstd::arithmetic::div_mod::lemma_fundamental_div_mod(b, 4);
        vstd::arithmetic::div_mod::lemma_mod_bound(b, 4);
        let q = width * r + b / 4;
        assert(4 * width * r + b == 4 * q + b % 4) by (nonlinear_arith)
            requires
                q == width * r + b / 4,
                b == 4 * (b / 4) + b % 4,
        ;
        vstd::arithmetic::div_mod::lemma_fundamental_div_mod_converse(
            4 * width * r + b,
            4,
            q,
            b % 4,
        );
        vstd::arithmetic::div_mod::lemma_mod_multiples_vanish(r, b / 4, width);
        assert(buffer_row(buf, width, r)[b] == buf[4 * width * r + b]);
        assert(buffer_row(buf, width, 0)[b] == buf[b]);
    }
    assert(buffer_row(buf, width, r) =~= buffer_row(buf, width, 0));
}

/// LAW (degenerate gradient): when the first `width` samples all hold
/// one color, every pixel of the packed buffer holds that color's bytes.
pub proof fn lemma_constant_samples_fill_buffer(
    samples: Seq<Rgba>,
    width: int,
    height: int,
    c: Rgba,
)
    requires
        1 <= width,
        forall|x: int| 0 <= x < width ==> samples[x] == c,
    ensures
        forall|b: int|
            0 <= b < 4 * width * height ==> packed_buffer(samples, width, height)[b] == c.byte(
                b % 4,
            ),
{
    assert forall|b: int| 0 <= b < 4 * width * height implies packed_buffer(
        samples,
        width,
        height,
    )[b] == c.byte(b % 4) by {
        vstd::arithmetic::div_mod::lemma_mod_bound(b / 4, width);
        assert(samples[(b / 4) % width] == c);
    }
}

/// A textured-rectangle draw instruction for one gradient swatch: its
/// size and its vertical position on the centered screen plane, in
/// thousandths of a viewport unit.  Swatches are horizontally centered.
#[derive(Clone, Copy, Debug, PartialEq, Eq, Structural)]
pub struct Swatch {
    pub width_milli: u64,
    pub height_milli: u64,
    pub y_milli: i64,
}

/// Swatch `k` of the stack: half the viewport wide, an eighth of it
/// tall, stacked downward from a quarter of the viewport height with a
/// tenth of a swatch of air between neighbors.
pub open spec fn swatch_spec(w: int, h: int, k: int) -> Swatch {
    Swatch {
        width_milli: (500 * w) as u64,
        height_milli: (125 * h) as u64,
        y_milli: (250 * h - 1375 * h * k / 10) as i64,
    }
}

/// Sizes and positions for a stack of `count` gradient swatches.
pub fn layout_swatches(width: u32, height: u32, count: usize) -> (r: Vec<Swatch>)
    requires
        1375 * (height as int) * (count as int) <= u64::MAX,
    ensures
        r@.len() == count,
        forall|k: int| 0 <= k < count ==> r@[k] == swatch_spec(width as int, height as int, k),
{
    let ghost w_i = width as int;
    let ghost h_i = height as int;
    let swatch_w: u64 = 500 * (width as u64);
    let swatch_h: u64 = 125 * (height as u64);
    let top: i64 = 250 * (height as i64);
    let mut r: Vec<Swatch> = Vec::new();
    for k in 0..count
        invariant
            w_i == width as int,
            h_i == height as int,
            1375 * h_i * (count as int) <= u64::MAX,
            swatch_w == 500 * w_i,
            swatch_h == 125 * h_i,
            top == 250 * h_i,
            r@.len() == k,
            forall|j: int| 0 <= j < k ==> #[trigger] r@[j] == swatch_spec(w_i, h_i, j),
    {
        proof {
            assert(0 <= 1375 * h_i * (k as int) <= 1375 * h_i * (count as int))
                by (nonlinear_arith)
                requires
                    0 <= h_i,
                    0 <= k < count,
            ;
        }
        let offset: u64 = (1375 * (height as u64) * (k as u64)) / 10;
        let y: i64 = top - (offset as i64);
        r.push(Swatch { width_milli: swatch_w, height_milli: swatch_h, y_milli: y });
        proof {
            assert(r@[k as int] == swatch_spec(w_i, h_i, k as int));
        }
    }
    r
}

/// The built-in gradient pairs: black toward each primary, then a full
/// sweep of the spherical HCL hue circle at full chroma and luminance.
pub open spec fn gradient_pairs_spec() -> Seq<Seq<Color>> {
    seq![
        seq![Color::Named(ColorName::Black), Color::Named(ColorName::Red)],
        seq![Color::Named(ColorName::Black), Color::Named(ColorName::Green)],
        seq![Color::Named(ColorName::Black), Color::Named(ColorName::Blue)],
        seq![
            Color::SphericalHcl { hue_e4: 0, chroma_e4: 10000, luminance_e4: 10000 },
            Color::SphericalHcl { hue_e4: 9999, chroma_e4: 10000, luminance_e4: 10000 },
        ],
    ]
}

/// The built-in hierarchy for the gradient scene: four start/end pairs.
pub fn generate_colors() -> (r: Vec<Vec<Color>>)
    ensures
        r@.len() == 4,
        forall|k: int| 0 <= k < 4 ==> (#[trigger] r@[k])@ == gradient_pairs_spec()[k],
{
    let mut gradient_one: Vec<Color> = Vec::new();
    gradient_one.push(Color::Named(ColorName::Black));
    gradient_one.push(Color::Named(ColorName::Red));
    let mut gradient_two: Vec<Color> = Vec::new();
    gradient_two.push(Color::Named(ColorName::Black));
    gradient_two.push(Color::Named(ColorName::Green));
    let mut gradient_three: Vec<Color> = Vec::new();
    gradient_three.push(Color::Named(ColorName::Black));
    gradient_three.push(Color::Named(ColorName::Blue));
    let mut gradient_four: Vec<Color> = Vec::new();
    gradient_four.push(Color::SphericalHcl { hue_e4: 0, chroma_e4: 10000, luminance_e4: 10000 });
    gradient_four.push(
        Color::SphericalHcl { hue_e4: 9999, chroma_e4: 10000, luminance_e4: 10000 },
    );
    let mut gradients: Vec<Vec<Color>> = Vec::new();
    proof {
        assert(gradient_one@ =~= gradient_pairs_spec()[0]);
        assert(gradient_two@ =~= gradient_pairs_spec()[1]);
        assert(gradient_three@ =~= gradient_pairs_spec()[2]);
        assert(gradient_four@ =~= gradient_pairs_spec()[3]);
    }
    gradients.push(gradient_one);
    gradients.push(gradient_two);
    gradients.push(gradient_three);
    gradients.push(gradient_four);
    gradients
}

} // verus!
