//! Concentric rings of equal-angle sectors: the hue wheel.
//!
//! Every ring is a set of pie-slice sectors that reach from the shared
//! center out to the ring's radius; inner rings are drawn above outer
//! rings, so what remains visible of each ring is an annulus.  Radii are
//! measured in sixteenths of a viewport unit, which makes the innermost
//! radius — an eighth of the smaller viewport side, halved — exact.
//! Angles are rational multiples of a half-turn, which makes the equal
//! division of the circle exact as well.

use vstd::prelude::*;

use crate::color::Color;
use crate::color::ColorName;
use crate::color::quaternary_hue_seq;
use crate::color::quaternary_hues;
use crate::LayoutError;

verus! {

/// An angle as a rational count of half-turns: `num / den` half-turns,
/// that is, `num * π / den` radians.
#[derive(Clone, Copy, Debug, PartialEq, Eq, Structural)]
pub struct Angle {
    pub num: i64,
    pub den: u64,
}

/// A pie-slice draw instruction: a sector spanning `half_angle` to each
/// side of its axis, the axis rotated by `rotation` from the reference
/// direction, reaching from the shared center out to its radius, drawn
/// at depth `z_order` (larger rings lie behind smaller ones).
#[derive(Clone, Copy, Debug, PartialEq, Eq, Structural)]
pub struct Sector {
    pub radius_sixteenths: u64,
    pub half_angle: Angle,
    pub rotation: Angle,
    pub z_order: i64,
    pub color: Color,
}

/// Outer radius of ring `k` in sixteenths of a viewport unit: the
/// innermost ring's radius is one sixteenth of the smaller viewport
/// side, and every ring is exactly that much thicker than the one
/// before.
pub open spec fn ring_radius_sixteenths(w: int, h: int, k: int) -> int {
    (k + 1) * (if w <= h {
        w
    } else {
        h
    })
}

/// Sector `i` of ring `k` holding `n` colors: half-angle `π / n`,
/// rotated clockwise by `2 * i * π / n`, at depth `-k`.
pub open spec fn ring_sector(w: int, h: int, k: int, n: int, i: int, c: Color) -> Sector {
    Sector {
        radius_sixteenths: ring_radius_sixteenths(w, h, k) as u64,
        half_angle: Angle { num: 1, den: n as u64 },
        rotation: Angle { num: (-2 * i) as i64, den: n as u64 },
        z_order: (-k) as i64,
        color: c,
    }
}

/// All sectors of ring `k`, in color order.
pub open spec fn ring_sectors(w: int, h: int, k: int, colors: Seq<Color>) -> Seq<Sector> {
    Seq::new(colors.len(), |i: int| ring_sector(w, h, k, colors.len() as int, i, colors[i]))
}

/// Lays the hierarchy out as concentric rings: stage `k` becomes ring
/// `k`, its colors spread over equal sectors.
///
/// Fails with `EmptyRing` when some stage holds no colors.  The bounds in
/// the preconditions only keep radii, rotations and depths inside their
/// fixed-width representations.
pub fn layout_rings(width: u32, height: u32, color_sets: &Vec<Vec<Color>>) -> (r: Result<
    Vec<(usize, Vec<Sector>)>,
    LayoutError,
>)
    requires
        width >= 1,
        height >= 1,
        (color_sets@.len() + 1) * (if width <= height {
            width as int
        } else {
            height as int
        }) <= u64::MAX,
        color_sets@.len() <= i64::MAX,
        forall|k: int|
            0 <= k < color_sets@.len() ==> 2 * (#[trigger] color_sets@[k])@.len() <= i64::MAX,
    ensures
        match r {
            Ok(v) => (forall|k: int|
                0 <= k < color_sets@.len() ==> (#[trigger] color_sets@[k])@.len() >= 1) && v@.len()
                == color_sets@.len() && forall|k: int|
                0 <= k < v@.len() ==> (#[trigger] v@[k]).0 == k && v@[k].1@ == ring_sectors(
                    width as int,
                    height as int,
                    k,
                    color_sets@[k]@,
                ),
            Err(e) => e == LayoutError::EmptyRing && exists|k: int|
                0 <= k < color_sets@.len() && (#[trigger] color_sets@[k])@.len() == 0,
        },
{
    let min_side: u64 = if width <= height {
        width as u64
    } else {
        height as u64
    };
    let ghost w_i = width as int;
    let ghost h_i = height as int;
    let mut rings: Vec<(usize, Vec<Sector>)> = Vec::new();
    for stage in 0..color_sets.len()
        invariant
            width >= 1,
            height >= 1,
            w_i == width as int,
            h_i == height as int,
            min_side == (if w_i <= h_i {
                w_i
            } else {
                h_i
            }),
            min_side >= 1,
            (color_sets@.len() + 1) * min_side <= u64::MAX,
            color_sets@.len() <= i64::MAX,
            forall|k: int|
                0 <= k < color_sets@.len() ==> 2 * (#[trigger] color_sets@[k])@.len() <= i64::MAX,
            rings@.len() == stage,
            forall|k: int|
                0 <= k < stage ==> (#[trigger] color_sets@[k])@.len() >= 1 && rings@[k].0 == k
                    && rings@[k].1@ == ring_sectors(w_i, h_i, k, color_sets@[k]@),
    {
        let n = color_sets[stage].len();
        if n == 0 {
            proof {
                assert(0 <= stage < color_sets@.len() && (color_sets@[stage as int])@.len() == 0);
            }
            return Err(LayoutError::EmptyRing);
        }
        proof {
            assert((stage + 1) * min_side <= (color_sets@.len() + 1) * min_side)
                by (nonlinear_arith)
                requires
                    0 <= stage,
                    stage + 1 <= color_sets@.len() + 1,
                    min_side >= 1,
            ;
        }
        let radius: u64 = (stage as u64 + 1) * min_side;
        let mut sectors: Vec<Sector> = Vec::new();
        for i in 0..n
            invariant
                n == (color_sets@[stage as int])@.len(),
                0 <= stage < color_sets@.len(),
                2 * (color_sets@[stage as int])@.len() <= i64::MAX,
                color_sets@.len() <= i64::MAX,
                radius == ring_radius_sixteenths(w_i, h_i, stage as int),
                sectors@.len() == i,
                forall|j: int|
                    0 <= j < i ==> #[trigger] sectors@[j] == ring_sector(
                        w_i,
                        h_i,
                        stage as int,
                        n as int,
                        j,
                        (color_sets@[stage as int])@[j],
                    ),
        {
            let rotation_num: i64 = -2 * (i as i64);
            sectors.push(
                Sector {
                    radius_sixteenths: radius,
                    half_angle: Angle { num: 1, den: n as u64 },
                    rotation: Angle { num: rotation_num, den: n as u64 },
                    z_order: -(stage as i64),
                    color: color_sets[stage][i],
                },
            );
        }
        proof {
            assert(sectors@ =~= ring_sectors(w_i, h_i, stage as int, (color_sets@[stage as int])@));
        }
        rings.push((stage, sectors));
    }
    proof {
        assert forall|k: int| 0 <= k < rings@.len() implies (#[trigger] rings@[k]).0 == k
            && rings@[k].1@ == ring_sectors(w_i, h_i, k, color_sets@[k]@) by {
            assert((color_sets@[k])@.len() >= 1);
        }
    }
    Ok(rings)
}

/// LAW (strictly increasing radii): each ring's outer radius is strictly
/// larger than the previous ring's, for every positive viewport.
pub proof fn lemma_ring_radii_strictly_increase(w: int, h: int, k: int)
    requires
        1 <= w,
        1 <= h,
        0 <= k,
    ensures
        ring_radius_sixteenths(w, h, k + 1) > ring_radius_sixteenths(w, h, k),
{
    let m = if w <= h {
        w
    } else {
        h
    };
    assert((k + 2) * m > (k + 1) * m) by (nonlinear_arith)
        requires
            m >= 1,
            k >= 0,
    ;
}

/// LAW (sectors fill the ring): in a ring of `n` colors every sector's
/// half-angle is `π / n` — as a rational count of half-turns, `1 / n` —
/// so `n` sectors of `2 * half_angle` each close the full circle:
/// `n * 2 * num == 2 * den` exactly, no tolerance needed.
pub proof fn lemma_sector_angles_fill_ring(w: int, h: int, k: int, colors: Seq<Color>, i: int)
    requires
        0 <= i < colors.len(),
        colors.len() <= u64::MAX,
    ensures
        ring_sectors(w, h, k, colors)[i].half_angle.num == 1,
        ring_sectors(w, h, k, colors)[i].half_angle.den == colors.len(),
        (colors.len() as int) * 2 * ring_sectors(w, h, k, colors)[i].half_angle.num == 2
            * ring_sectors(w, h, k, colors)[i].half_angle.den,
{
}

/// The built-in hue rings: ring `k` of the wheel samples the quaternary
/// wheel at every `stride`-th hue.
pub open spec fn hues_spec() -> Seq<Seq<Color>> {
    seq![
        seq![Color::Named(ColorName::White)],
        Seq::new(3, |j: int| Color::Named(quaternary_hue_seq()[8 * j])),
        Seq::new(6, |j: int| Color::Named(quaternary_hue_seq()[4 * j])),
        Seq::new(12, |j: int| Color::Named(quaternary_hue_seq()[2 * j])),
        Seq::new(24, |j: int| Color::Named(quaternary_hue_seq()[j])),
    ]
}

/// Every `stride`-th hue of the quaternary wheel, `count` of them.
fn hue_row(hues: &Vec<ColorName>, stride: usize, count: usize) -> (r: Vec<Color>)
    requires
        hues@ == quaternary_hue_seq(),
        hues@.len() == 24,
        1 <= count,
        stride * count == 24,
    ensures
        r@.len() == count,
        forall|j: int|
            0 <= j < count ==> #[trigger] r@[j] == Color::Named(
                quaternary_hue_seq()[stride as int * j],
            ),
{
    let mut r: Vec<Color> = Vec::new();
    for j in 0..count
        invariant
            hues@ == quaternary_hue_seq(),
            hues@.len() == 24,
            1 <= count,
            stride * count == 24,
            r@.len() == j,
            forall|u: int|
                0 <= u < j ==> #[trigger] r@[u] == Color::Named(
                    quaternary_hue_seq()[stride as int * u],
                ),
    {
        proof {
            assert(stride * j < stride * count) by (nonlinear_arith)
                requires
                    0 <= j < count,
                    1 <= stride,
            ;
            assert(stride >= 1) by (nonlinear_arith)
                requires
                    stride * count == 24,
                    1 <= count,
                    0 <= stride,
            ;
        }
        let idx = stride * j;
        r.push(Color::Named(hues[idx]));
    }
    r
}

/// The built-in hierarchy for the hue wheel: white alone at the center,
/// then the primary, secondary, tertiary and quaternary hue sets, each
/// ring sampling the quaternary wheel twice as densely as the one
/// before.
pub fn generate_hues() -> (r: Vec<Vec<Color>>)
    ensures
        r@.len() == 5,
        forall|k: int| 0 <= k < 5 ==> (#[trigger] r@[k])@ == hues_spec()[k],
{
    let hues = quaternary_hues();
    let mut r: Vec<Vec<Color>> = Vec::new();
    let mut protoary: Vec<Color> = Vec::new();
    protoary.push(Color::Named(ColorName::White));
    proof {
        assert(protoary@ =~= hues_spec()[0]);
    }
    r.push(protoary);
    let primary = hue_row(&hues, 8, 3);
    proof {
        assert(primary@ =~= hues_spec()[1]);
    }
    r.push(primary);
    let secondary = hue_row(&hues, 4, 6);
    proof {
        assert(secondary@ =~= hues_spec()[2]);
    }
    r.push(secondary);
    let tertiary = hue_row(&hues, 2, 12);
    proof {
        assert(tertiary@ =~= hues_spec()[3]);
    }
    r.push(tertiary);
    let quaternary = hue_row(&hues, 1, 24);
    proof {
        assert(quaternary@ =~= hues_spec()[4]);
    }
    r.push(quaternary);
    r
}

} // verus!
