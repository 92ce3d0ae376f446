//! Ratio-driven grid of tiles, each fanned into colored triangles.
//!
//! The viewport is matched against a fixed table of eight standard aspect
//! ratios; the winning entry fixes the grid's column and row counts.  Each
//! grid cell is a rectangular tile, and each tile is decomposed into a
//! triangle fan around its center, one triangle per color of the tile's
//! stage of the hierarchy.
//!
//! Viewport sides are measured in whole units (for a window, pixels); tile
//! coordinates are measured in thousandths of a unit, so that the 80% fill
//! factor and the per-cell division leave a single exactly-specified
//! truncation per axis.

use vstd::prelude::*;

use crate::color::Color;
use crate::color::ColorName;
use crate::color::quaternary_hue_seq;
use crate::color::quaternary_hues;
use crate::LayoutError;

verus! {

/// The fixed table of standard aspect ratios, `(columns, rows)`, spanning
/// 1:24 to 24:1.
pub open spec fn ratio_table() -> Seq<(usize, usize)> {
    seq![
        (1usize, 24usize),
        (2usize, 12usize),
        (3usize, 8usize),
        (4usize, 6usize),
        (6usize, 4usize),
        (8usize, 3usize),
        (12usize, 2usize),
        (24usize, 1usize),
    ]
}

/// Distance of a table entry from the viewport's own ratio, scaled by 1000
/// and truncated to an integer: `floor(1000 * |cols/rows - w/h|)`, written
/// over a common denominator so every step is exact integer arithmetic.
pub open spec fn ratio_dist(entry: (usize, usize), w: int, h: int) -> int {
    1000 * abs_diff(entry.0 * h, w * entry.1) / (entry.1 * h)
}

/// `|a - b|`.
pub open spec fn abs_diff(a: int, b: int) -> int {
    if a >= b {
        a - b
    } else {
        b - a
    }
}

/// Index of the entry among the first `n` table entries whose distance from
/// the viewport ratio is least; ties keep the earliest entry.
pub open spec fn best_index_upto(w: int, h: int, n: int) -> int
    decreases n,
{
    if n <= 1 {
        0
    } else {
        let prev = best_index_upto(w, h, n - 1);
        if ratio_dist(ratio_table()[n - 1], w, h) < ratio_dist(ratio_table()[prev], w, h) {
            n - 1
        } else {
            prev
        }
    }
}

/// The table entry closest to the ratio `w : h`.
pub open spec fn closest_ratio_spec(w: int, h: int) -> (usize, usize) {
    ratio_table()[best_index_upto(w, h, 8)]
}

/// The table's entries, one by one.
pub proof fn lemma_ratio_table_values()
    ensures
        ratio_table()[0] == (1usize, 24usize),
        ratio_table()[1] == (2usize, 12usize),
        ratio_table()[2] == (3usize, 8usize),
        ratio_table()[3] == (4usize, 6usize),
        ratio_table()[4] == (6usize, 4usize),
        ratio_table()[5] == (8usize, 3usize),
        ratio_table()[6] == (12usize, 2usize),
        ratio_table()[7] == (24usize, 1usize),
{
}

/// Every table entry has columns and rows between 1 and 24.
pub proof fn lemma_ratio_table_bounds()
    ensures
        forall|j: int|
            0 <= j < 8 ==> 1 <= (#[trigger] ratio_table()[j]).0 <= 24
                && 1 <= ratio_table()[j].1 <= 24,
{
    lemma_ratio_table_values();
}

/// The best index over any prefix stays inside that prefix.
pub proof fn lemma_best_index_in_range(w: int, h: int, n: int)
    requires
        1 <= n,
    ensures
        0 <= best_index_upto(w, h, n) < n,
    decreases n,
{
    if n > 1 {
        lemma_best_index_in_range(w, h, n - 1);
    }
}

/// The scaled, truncated distance of one table entry from the viewport
/// ratio.
fn ratio_distance(entry: (usize, usize), width: u32, height: u32) -> (d: u64)
    requires
        1 <= entry.0 <= 24,
        1 <= entry.1 <= 24,
        width >= 1,
        height >= 1,
    ensures
        d == ratio_dist(entry, width as int, height as int),
{
    let cols = entry.0 as u64;
    let rows = entry.1 as u64;
    let w = width as u64;
    let h = height as u64;
    proof {
        assert(cols * h <= 24 * 0xffff_ffffu64) by (nonlinear_arith)
            requires
                cols <= 24,
                h <= 0xffff_ffffu64,
        ;
        assert(w * rows <= 0xffff_ffffu64 * 24) by (nonlinear_arith)
            requires
                w <= 0xffff_ffffu64,
                rows <= 24,
        ;
        assert(1 <= rows * h <= 24 * 0xffff_ffffu64) by (nonlinear_arith)
            requires
                1 <= rows <= 24,
                1 <= h <= 0xffff_ffffu64,
        ;
    }
    let a = cols * h;
    let b = w * rows;
    let diff = if a >= b {
        a - b
    } else {
        b - a
    };
    (1000 * diff) / (rows * h)
}

/// Scans the fixed ratio table and returns the entry whose ratio is nearest
/// to `width : height` under the scaled, truncated distance; ties keep the
/// entry encountered first.
pub fn find_closest_ratio(width: u32, height: u32) -> (r: (usize, usize))
    requires
        width >= 1,
        height >= 1,
    ensures
        r == closest_ratio_spec(width as int, height as int),
{
    let mut table: Vec<(usize, usize)> = Vec::new();
    table.push((1, 24));
    table.push((2, 12));
    table.push((3, 8));
    table.push((4, 6));
    table.push((6, 4));
    table.push((8, 3));
    table.push((12, 2));
    table.push((24, 1));
    proof {
        assert(table@ =~= ratio_table());
        lemma_ratio_table_bounds();
    }
    let mut best: usize = 0;
    let mut best_d: u64 = ratio_distance(table[0], width, height);
    for i in 1..8usize
        invariant
            table@ =~= ratio_table(),
            table@.len() == 8,
            width >= 1,
            height >= 1,
            best < i,
            best == best_index_upto(width as int, height as int, i as int),
            best_d == ratio_dist(ratio_table()[best as int], width as int, height as int),
            forall|j: int|
                0 <= j < 8 ==> 1 <= (#[trigger] ratio_table()[j]).0 <= 24
                    && 1 <= ratio_table()[j].1 <= 24,
    {
        let d = ratio_distance(table[i], width, height);
        if d < best_d {
            best = i;
            best_d = d;
        }
    }
    table[best]
}

/// Two fractions `a / b` and `c / d` of equal value have equal floors.
proof fn lemma_div_cross(a: int, b: int, c: int, d: int)
    requires
        0 <= a,
        0 <= c,
        1 <= b,
        1 <= d,
        a * d == c * b,
    ensures
        a / b == c / d,
{
    let q: int = a / b;
    let r: int = a % b;
    vstd::arithmetic::div_mod::lemma_fundamental_div_mod(a, b);
    vstd::arithmetic::div_mod::lemma_mod_bound(a, b);
    let s: int = c - q * d;
    assert(s * b == r * d) by (nonlinear_arith)
        requires
            a == b * q + r,
            a * d == c * b,
            s == c - q * d,
    ;
    assert(0 <= s < d) by (nonlinear_arith)
        requires
            s * b == r * d,
            0 <= r < b,
            1 <= b,
            1 <= d,
    ;
    vstd::arithmetic::div_mod::lemma_fundamental_div_mod_converse(c, d, q, s);
}

/// One table entry is equally far from two viewports of equal ratio.
proof fn lemma_ratio_dist_scale(entry: (usize, usize), w1: int, h1: int, w2: int, h2: int)
    requires
        1 <= entry.1,
        1 <= w1,
        1 <= h1,
        1 <= w2,
        1 <= h2,
        w1 * h2 == w2 * h1,
    ensures
        ratio_dist(entry, w1, h1) == ratio_dist(entry, w2, h2),
{
    let x = entry.0 as int;
    let y = entry.1 as int;
    assert(y * (w1 * h2) == y * (w2 * h1)) by (nonlinear_arith)
        requires
            w1 * h2 == w2 * h1,
    ;
    assert((x * h1 - w1 * y) * h2 == (x * h2 - w2 * y) * h1) by (nonlinear_arith)
        requires
            y * (w1 * h2) == y * (w2 * h1),
    ;
    let a1 = abs_diff(x * h1, w1 * y);
    let a2 = abs_diff(x * h2, w2 * y);
    if x * h1 >= w1 * y {
        assert(x * h2 - w2 * y >= 0) by (nonlinear_arith)
            requires
                x * h1 - w1 * y >= 0,
                (x * h1 - w1 * y) * h2 == (x * h2 - w2 * y) * h1,
                1 <= h1,
                1 <= h2,
        ;
        assert(a1 * h2 == a2 * h1);
    } else {
        assert(x * h2 - w2 * y < 0) by (nonlinear_arith)
            requires
                x * h1 - w1 * y < 0,
                (x * h1 - w1 * y) * h2 == (x * h2 - w2 * y) * h1,
                1 <= h1,
                1 <= h2,
        ;
        assert(a1 * h2 == a2 * h1) by (nonlinear_arith)
            requires
                (x * h1 - w1 * y) * h2 == (x * h2 - w2 * y) * h1,
                a1 == w1 * y - x * h1,
                a2 == w2 * y - x * h2,
    ;
    }
    assert((1000 * a1) * (y * h2) == (1000 * a2) * (y * h1) && 1 <= y * h1 && 1 <= y * h2)
        by (nonlinear_arith)
        requires
            a1 * h2 == a2 * h1,
            1 <= y,
            1 <= h1,
            1 <= h2,
    ;
    lemma_div_cross(1000 * a1, y * h1, 1000 * a2, y * h2);
}

/// Two viewports of equal ratio pick the same best index over any prefix.
proof fn lemma_best_index_same(w1: int, h1: int, w2: int, h2: int, n: int)
    requires
        1 <= n <= 8,
        forall|j: int|
            0 <= j < 8 ==> #[trigger] ratio_dist(ratio_table()[j], w1, h1) == ratio_dist(
                ratio_table()[j],
                w2,
                h2,
            ),
    ensures
        best_index_upto(w1, h1, n) == best_index_upto(w2, h2, n),
    decreases n,
{
    if n > 1 {
        lemma_best_index_same(w1, h1, w2, h2, n - 1);
        lemma_best_index_in_range(w1, h1, n - 1);
    }
}

/// LAW (scale invariance): the closest ratio depends only on the ratio of
/// the viewport's sides.  Two viewports with `w1 : h1 == w2 : h2` — in
/// particular a viewport and any positive rational multiple of it — are
/// matched to the same table entry.
pub proof fn lemma_closest_ratio_scale_invariant(w1: int, h1: int, w2: int, h2: int)
    requires
        1 <= w1,
        1 <= h1,
        1 <= w2,
        1 <= h2,
        w1 * h2 == w2 * h1,
    ensures
        closest_ratio_spec(w1, h1) == closest_ratio_spec(w2, h2),
{
    lemma_ratio_table_bounds();
    assert forall|j: int| 0 <= j < 8 implies #[trigger] ratio_dist(ratio_table()[j], w1, h1)
        == ratio_dist(ratio_table()[j], w2, h2) by {
        lemma_ratio_dist_scale(ratio_table()[j], w1, h1, w2, h2);
    }
    lemma_best_index_same(w1, h1, w2, h2, 8);
}

/// A table entry at distance zero beats every entry at positive distance,
/// whatever the scan order.
proof fn lemma_zero_dist_wins(w: int, h: int, k: int, n: int)
    requires
        0 <= k < n <= 8,
        ratio_dist(ratio_table()[k], w, h) == 0,
        forall|j: int|
            0 <= j < 8 && j != k ==> #[trigger] ratio_dist(ratio_table()[j], w, h) >= 1,
    ensures
        best_index_upto(w, h, n) == k,
    decreases n,
{
    if n == k + 1 {
        if k > 0 {
            lemma_best_index_in_range(w, h, k);
        }
    } else {
        lemma_zero_dist_wins(w, h, k, n - 1);
    }
}

proof fn lemma_fixed_point_0()
    ensures
        closest_ratio_spec(1, 24) == (1usize, 24usize),
{
    lemma_ratio_table_values();
    assert(0int / 576 == 0);
    assert(ratio_dist(ratio_table()[0], 1, 24) == 0);
    assert(36000int / 288 == 125);
    assert(ratio_dist(ratio_table()[1], 1, 24) == 125);
    assert(64000int / 192 == 333);
    assert(ratio_dist(ratio_table()[2], 1, 24) == 333);
    assert(90000int / 144 == 625);
    assert(ratio_dist(ratio_table()[3], 1, 24) == 625);
    assert(140000int / 96 == 1458);
    assert(ratio_dist(ratio_table()[4], 1, 24) == 1458);
    assert(189000int / 72 == 2625);
    assert(ratio_dist(ratio_table()[5], 1, 24) == 2625);
    assert(286000int / 48 == 5958);
    assert(ratio_dist(ratio_table()[6], 1, 24) == 5958);
    assert(575000int / 24 == 23958);
    assert(ratio_dist(ratio_table()[7], 1, 24) == 23958);
    assert forall|j: int| 0 <= j < 8 && j != 0 implies #[trigger] ratio_dist(
        ratio_table()[j],
        1,
        24,
    ) >= 1 by {}
    lemma_zero_dist_wins(1, 24, 0, 8);
}

proof fn lemma_fixed_point_1()
    ensures
        closest_ratio_spec(2, 12) == (2usize, 12usize),
{
    lemma_ratio_table_values();
    assert(36000int / 288 == 125);
    assert(ratio_dist(ratio_table()[0], 2, 12) == 125);
    assert(0int / 144 == 0);
    assert(ratio_dist(ratio_table()[1], 2, 12) == 0);
    assert(20000int / 96 == 208);
    assert(ratio_dist(ratio_table()[2], 2, 12) == 208);
    assert(36000int / 72 == 500);
    assert(ratio_dist(ratio_table()[3], 2, 12) == 500);
    assert(64000int / 48 == 1333);
    assert(ratio_dist(ratio_table()[4], 2, 12) == 1333);
    assert(90000int / 36 == 2500);
    assert(ratio_dist(ratio_table()[5], 2, 12) == 2500);
    assert(140000int / 24 == 5833);
    assert(ratio_dist(ratio_table()[6], 2, 12) == 5833);
    assert(286000int / 12 == 23833);
    assert(ratio_dist(ratio_table()[7], 2, 12) == 23833);
    assert forall|j: int| 0 <= j < 8 && j != 1 implies #[trigger] ratio_dist(
        ratio_table()[j],
        2,
        12,
    ) >= 1 by {}
    lemma_zero_dist_wins(2, 12, 1, 8);
}

proof fn lemma_fixed_point_2()
    ensures
        closest_ratio_spec(3, 8) == (3usize, 8usize),
{
    lemma_ratio_table_values();
    assert(64000int / 192 == 333);
    assert(ratio_dist(ratio_table()[0], 3, 8) == 333);
    assert(20000int / 96 == 208);
    assert(ratio_dist(ratio_table()[1], 3, 8) == 208);
    assert(0int / 64 == 0);
    assert(ratio_dist(ratio_table()[2], 3, 8) == 0);
    assert(14000int / 48 == 291);
    assert(ratio_dist(ratio_table()[3], 3, 8) == 291);
    assert(36000int / 32 == 1125);
    assert(ratio_dist(ratio_table()[4], 3, 8) == 1125);
    assert(55000int / 24 == 2291);
    assert(ratio_dist(ratio_table()[5], 3, 8) == 2291);
    assert(90000int / 16 == 5625);
    assert(ratio_dist(ratio_table()[6], 3, 8) == 5625);
    assert(189000int / 8 == 23625);
    assert(ratio_dist(ratio_table()[7], 3, 8) == 23625);
    assert forall|j: int| 0 <= j < 8 && j != 2 implies #[trigger] ratio_dist(
        ratio_table()[j],
        3,
        8,
    ) >= 1 by {}
    lemma_zero_dist_wins(3, 8, 2, 8);
}

proof fn lemma_fixed_point_3()
    ensures
        closest_ratio_spec(4, 6) == (4usize, 6usize),
{
    lemma_ratio_table_values();
    assert(90000int / 144 == 625);
    assert(ratio_dist(ratio_table()[0], 4, 6) == 625);
    assert(36000int / 72 == 500);
    assert(ratio_dist(ratio_table()[1], 4, 6) == 500);
    assert(14000int / 48 == 291);
    assert(ratio_dist(ratio_table()[2], 4, 6) == 291);
    assert(0int / 36 == 0);
    assert(ratio_dist(ratio_table()[3], 4, 6) == 0);
    assert(20000int / 24 == 833);
    assert(ratio_dist(ratio_table()[4], 4, 6) == 833);
    assert(36000int / 18 == 2000);
    assert(ratio_dist(ratio_table()[5], 4, 6) == 2000);
    assert(64000int / 12 == 5333);
    assert(ratio_dist(ratio_table()[6], 4, 6) == 5333);
    assert(140000int / 6 == 23333);
    assert(ratio_dist(ratio_table()[7], 4, 6) == 23333);
    assert forall|j: int| 0 <= j < 8 && j != 3 implies #[trigger] ratio_dist(
        ratio_table()[j],
        4,
        6,
    ) >= 1 by {}
    lemma_zero_dist_wins(4, 6, 3, 8);
}

proof fn lemma_fixed_point_4()
    ensures
        closest_ratio_spec(6, 4) == (6usize, 4usize),
{
    lemma_ratio_table_values();
    assert(140000int / 96 == 1458);
    assert(ratio_dist(ratio_table()[0], 6, 4) == 1458);
    assert(64000int / 48 == 1333);
    assert(ratio_dist(ratio_table()[1], 6, 4) == 1333);
    assert(36000int / 32 == 1125);
    assert(ratio_dist(ratio_table()[2], 6, 4) == 1125);
    assert(20000int / 24 == 833);
    assert(ratio_dist(ratio_table()[3], 6, 4) == 833);
    assert(0int / 16 == 0);
    assert(ratio_dist(ratio_table()[4], 6, 4) == 0);
    assert(14000int / 12 == 1166);
    assert(ratio_dist(ratio_table()[5], 6, 4) == 1166);
    assert(36000int / 8 == 4500);
    assert(ratio_dist(ratio_table()[6], 6, 4) == 4500);
    assert(90000int / 4 == 22500);
    assert(ratio_dist(ratio_table()[7], 6, 4) == 22500);
    assert forall|j: int| 0 <= j < 8 && j != 4 implies #[trigger] ratio_dist(
        ratio_table()[j],
        6,
        4,
    ) >= 1 by {}
    lemma_zero_dist_wins(6, 4, 4, 8);
}

proof fn lemma_fixed_point_5()
    ensures
        closest_ratio_spec(8, 3) == (8usize, 3usize),
{
    lemma_ratio_table_values();
    assert(189000int / 72 == 2625);
    assert(ratio_dist(ratio_table()[0], 8, 3) == 2625);
    assert(90000int / 36 == 2500);
    assert(ratio_dist(ratio_table()[1], 8, 3) == 2500);
    assert(55000int / 24 == 2291);
    assert(ratio_dist(ratio_table()[2], 8, 3) == 2291);
    assert(36000int / 18 == 2000);
    assert(ratio_dist(ratio_table()[3], 8, 3) == 2000);
    assert(14000int / 12 == 1166);
    assert(ratio_dist(ratio_table()[4], 8, 3) == 1166);
    assert(0int / 9 == 0);
    assert(ratio_dist(ratio_table()[5], 8, 3) == 0);
    assert(20000int / 6 == 3333);
    assert(ratio_dist(ratio_table()[6], 8, 3) == 3333);
    assert(64000int / 3 == 21333);
    assert(ratio_dist(ratio_table()[7], 8, 3) == 21333);
    assert forall|j: int| 0 <= j < 8 && j != 5 implies #[trigger] ratio_dist(
        ratio_table()[j],
        8,
        3,
    ) >= 1 by {}
    lemma_zero_dist_wins(8, 3, 5, 8);
}

proof fn lemma_fixed_point_6()
    ensures
        closest_ratio_spec(12, 2) == (12usize, 2usize),
{
    lemma_ratio_table_values();
    assert(286000int / 48 == 5958);
    assert(ratio_dist(ratio_table()[0], 12, 2) == 5958);
    assert(140000int / 24 == 5833);
    assert(ratio_dist(ratio_table()[1], 12, 2) == 5833);
    assert(90000int / 16 == 5625);
    assert(ratio_dist(ratio_table()[2], 12, 2) == 5625);
    assert(64000int / 12 == 5333);
    assert(ratio_dist(ratio_table()[3], 12, 2) == 5333);
    assert(36000int / 8 == 4500);
    assert(ratio_dist(ratio_table()[4], 12, 2) == 4500);
    assert(20000int / 6 == 3333);
    assert(ratio_dist(ratio_table()[5], 12, 2) == 3333);
    assert(0int / 4 == 0);
    assert(ratio_dist(ratio_table()[6], 12, 2) == 0);
    assert(36000int / 2 == 18000);
    assert(ratio_dist(ratio_table()[7], 12, 2) == 18000);
    assert forall|j: int| 0 <= j < 8 && j != 6 implies #[trigger] ratio_dist(
        ratio_table()[j],
        12,
        2,
    ) >= 1 by {}
    lemma_zero_dist_wins(12, 2, 6, 8);
}

proof fn lemma_fixed_point_7()
    ensures
        closest_ratio_spec(24, 1) == (24usize, 1usize),
{
    lemma_ratio_table_values();
    assert(575000int / 24 == 23958);
    assert(ratio_dist(ratio_table()[0], 24, 1) == 23958);
    assert(286000int / 12 == 23833);
    assert(ratio_dist(ratio_table()[1], 24, 1) == 23833);
    assert(189000int / 8 == 23625);
    assert(ratio_dist(ratio_table()[2], 24, 1) == 23625);
    assert(140000int / 6 == 23333);
    assert(ratio_dist(ratio_table()[3], 24, 1) == 23333);
    assert(90000int / 4 == 22500);
    assert(ratio_dist(ratio_table()[4], 24, 1) == 22500);
    assert(64000int / 3 == 21333);
    assert(ratio_dist(ratio_table()[5], 24, 1) == 21333);
    assert(36000int / 2 == 18000);
    assert(ratio_dist(ratio_table()[6], 24, 1) == 18000);
    assert(0int / 1 == 0);
    assert(ratio_dist(ratio_table()[7], 24, 1) == 0);
    assert forall|j: int| 0 <= j < 8 && j != 7 implies #[trigger] ratio_dist(
        ratio_table()[j],
        24,
        1,
    ) >= 1 by {}
    lemma_zero_dist_wins(24, 1, 7, 8);
}

/// LAW (scale invariance, scaling form): multiplying both viewport sides
/// by one positive factor leaves the matched table entry unchanged.
pub proof fn lemma_closest_ratio_scaling(w: int, h: int, k: int)
    requires
        1 <= w,
        1 <= h,
        1 <= k,
    ensures
        closest_ratio_spec(k * w, k * h) == closest_ratio_spec(w, h),
{
    assert(w * (k * h) == (k * w) * h && 1 <= k * w && 1 <= k * h) by (nonlinear_arith)
        requires
            1 <= w,
            1 <= h,
            1 <= k,
    ;
    lemma_closest_ratio_scale_invariant(w, h, k * w, k * h);
}

/// LAW (fixed points): each table entry, taken as a viewport of exactly
/// its own proportions, is matched to itself.
pub proof fn lemma_table_entries_are_fixed_points()
    ensures
        closest_ratio_spec(1, 24) == (1usize, 24usize),
        closest_ratio_spec(2, 12) == (2usize, 12usize),
        closest_ratio_spec(3, 8) == (3usize, 8usize),
        closest_ratio_spec(4, 6) == (4usize, 6usize),
        closest_ratio_spec(6, 4) == (6usize, 4usize),
        closest_ratio_spec(8, 3) == (8usize, 3usize),
        closest_ratio_spec(12, 2) == (12usize, 2usize),
        closest_ratio_spec(24, 1) == (24usize, 1usize),
{
    lemma_fixed_point_0();
    lemma_fixed_point_1();
    lemma_fixed_point_2();
    lemma_fixed_point_3();
    lemma_fixed_point_4();
    lemma_fixed_point_5();
    lemma_fixed_point_6();
    lemma_fixed_point_7();
}

/// Coordinates are kept within this bound so that corner and center
/// arithmetic stays inside `i64`.
pub const COORD_LIMIT: i64 = 0x1000_0000_0000_0000;

/// A point of the centered screen plane, in thousandths of a viewport unit.
/// `y` grows upward; tiles hang downward from their top-left corner.
#[derive(Clone, Copy, Debug, PartialEq, Eq, Structural)]
pub struct Point {
    pub x: i64,
    pub y: i64,
}

/// An axis-aligned rectangle given by its top-left and bottom-right corners.
#[derive(Clone, Copy, Debug, PartialEq, Eq, Structural)]
pub struct Tile {
    pub top_left: Point,
    pub bottom_right: Point,
}

/// A solid triangle draw instruction.
#[derive(Clone, Copy, Debug, PartialEq, Eq, Structural)]
pub struct Triangle {
    pub p0: Point,
    pub p1: Point,
    pub p2: Point,
    pub color: Color,
}

impl Tile {
    /// The corners are ordered and the coordinates leave room for corner
    /// and center arithmetic.
    pub open spec fn wf(self) -> bool {
        &&& -COORD_LIMIT <= self.top_left.x <= self.bottom_right.x <= COORD_LIMIT
        &&& -COORD_LIMIT <= self.bottom_right.y <= self.top_left.y <= COORD_LIMIT
    }

    /// The tile's center: the midpoint of its diagonal, each coordinate
    /// rounded toward the top-left corner.
    pub open spec fn center_spec(self) -> Point {
        Point {
            x: (self.top_left.x + (self.bottom_right.x - self.top_left.x) / 2) as i64,
            y: (self.top_left.y - (self.top_left.y - self.bottom_right.y) / 2) as i64,
        }
    }

    /// Corner `i`, clockwise from the top-left: top-left, top-right,
    /// bottom-right, bottom-left.
    pub open spec fn corner_spec(self, i: int) -> Point {
        if i == 0 {
            self.top_left
        } else if i == 1 {
            Point { x: self.bottom_right.x, y: self.top_left.y }
        } else if i == 2 {
            self.bottom_right
        } else {
            Point { x: self.top_left.x, y: self.bottom_right.y }
        }
    }

    /// Builds the tile whose top-left corner is `(x, y)` and whose
    /// bottom-right corner lies `width` to the right and `height` below.
    pub fn new_from_top_left(x: i64, y: i64, width: i64, height: i64) -> (t: Tile)
        requires
            0 <= width,
            0 <= height,
            -COORD_LIMIT <= x,
            x + width <= COORD_LIMIT,
            y <= COORD_LIMIT,
            -COORD_LIMIT <= y - height,
        ensures
            t.top_left == (Point { x, y }),
            t.bottom_right == (Point { x: (x + width) as i64, y: (y - height) as i64 }),
            t.wf(),
    {
        Tile { top_left: Point { x, y }, bottom_right: Point { x: x + width, y: y - height } }
    }

    /// The tile's center.
    pub fn center(&self) -> (c: Point)
        requires
            self.wf(),
        ensures
            c == self.center_spec(),
    {
        let half_dx = ((self.bottom_right.x - self.top_left.x) as u64 / 2) as i64;
        let half_dy = ((self.top_left.y - self.bottom_right.y) as u64 / 2) as i64;
        Point { x: self.top_left.x + half_dx, y: self.top_left.y - half_dy }
    }

    /// The top-left corner.
    pub fn top_left(&self) -> (p: Point)
        ensures
            p == self.corner_spec(0),
    {
        self.top_left
    }

    /// The top-right corner.
    pub fn top_right(&self) -> (p: Point)
        ensures
            p == self.corner_spec(1),
    {
        Point { x: self.bottom_right.x, y: self.top_left.y }
    }

    /// The bottom-right corner.
    pub fn bottom_right(&self) -> (p: Point)
        ensures
            p == self.corner_spec(2),
    {
        self.bottom_right
    }

    /// The bottom-left corner.
    pub fn bottom_left(&self) -> (p: Point)
        ensures
            p == self.corner_spec(3),
    {
        Point { x: self.top_left.x, y: self.bottom_right.y }
    }

    /// Corner `i` of the clockwise order.
    pub fn corner(&self, i: usize) -> (p: Point)
        requires
            i < 4,
        ensures
            p == self.corner_spec(i as int),
    {
        if i == 0 {
            self.top_left()
        } else if i == 1 {
            self.top_right()
        } else if i == 2 {
            self.bottom_right()
        } else {
            self.bottom_left()
        }
    }
}

/// Triangle `i` of a tile's fan: corner `i`, the next corner clockwise
/// (wrapping at four), and the tile's center, filled with `c`.
pub open spec fn fan_triangle(t: Tile, i: int, c: Color) -> Triangle {
    Triangle {
        p0: t.corner_spec(i),
        p1: t.corner_spec((i + 1) % 4),
        p2: t.center_spec(),
        color: c,
    }
}

/// The whole fan of a tile: one triangle per color, in color order.
pub open spec fn fan_seq(t: Tile, colors: Seq<Color>) -> Seq<Triangle> {
    Seq::new(colors.len(), |i: int| fan_triangle(t, i, colors[i]))
}

/// Fans a tile into one triangle per color, pivoting on the tile's center.
///
/// With exactly four colors the fan covers the tile; fewer colors leave it
/// partially covered, which is valid.  More than four colors are rejected.
pub fn triangulate(tile: &Tile, colors: &Vec<Color>) -> (r: Result<Vec<Triangle>, LayoutError>)
    requires
        tile.wf(),
    ensures
        match r {
            Ok(v) => colors@.len() <= 4 && v@ == fan_seq(*tile, colors@),
            Err(e) => e == LayoutError::TooManyColors && colors@.len() > 4,
        },
{
    if colors.len() > 4 {
        return Err(LayoutError::TooManyColors);
    }
    let ct = tile.center();
    let mut v: Vec<Triangle> = Vec::new();
    for i in 0..colors.len()
        invariant
            tile.wf(),
            colors@.len() <= 4,
            ct == tile.center_spec(),
            v@.len() == i,
            forall|j: int| 0 <= j < i ==> v@[j] == fan_triangle(*tile, j, colors@[j]),
    {
        let p0 = tile.corner(i);
        let p1 = tile.corner(if i + 1 < 4 {
            i + 1
        } else {
            0
        });
        v.push(Triangle { p0, p1, p2: ct, color: colors[i] });
    }
    proof {
        assert(v@ =~= fan_seq(*tile, colors@));
    }
    Ok(v)
}

/// The built-in tile table: a leading all-white row, then one row per
/// quaternary hue holding that hue and its next three neighbors clockwise
/// around the wheel.
pub open spec fn peaks_table() -> Seq<Seq<Color>> {
    Seq::new(
        25,
        |i: int|
            if i == 0 {
                Seq::new(4, |j: int| Color::Named(ColorName::White))
            } else {
                Seq::new(4, |j: int| Color::Named(quaternary_hue_seq()[(i - 1 + j) % 24]))
            },
    )
}

/// The built-in hierarchy for the tiled scene: the tile table without its
/// leading white row, so one four-color stage per quaternary hue.
pub fn generate_colors() -> (r: Vec<Vec<Color>>)
    ensures
        r@.len() == 24,
        forall|i: int| 0 <= i < 24 ==> (#[trigger] r@[i])@ == peaks_table()[i + 1],
{
    let hues = quaternary_hues();
    let mut rows: Vec<Vec<Color>> = Vec::new();
    for i in 1..25usize
        invariant
            hues@ == quaternary_hue_seq(),
            hues@.len() == 24,
            rows@.len() == i - 1,
            forall|t: int| 0 <= t < i - 1 ==> (#[trigger] rows@[t])@ == peaks_table()[t + 1],
    {
        let mut row: Vec<Color> = Vec::new();
        for j in 0..4usize
            invariant
                hues@ == quaternary_hue_seq(),
                hues@.len() == 24,
                1 <= i < 25,
                row@.len() == j,
                forall|u: int|
                    0 <= u < j ==> #[trigger] row@[u] == Color::Named(
                        quaternary_hue_seq()[(i - 1 + u) % 24],
                    ),
        {
            let idx = (i - 1 + j) % 24;
            row.push(Color::Named(hues[idx]));
        }
        proof {
            assert(row@ =~= peaks_table()[i as int]);
        }
        rows.push(row);
    }
    rows
}

/// Twice the signed area of the triangle `(a, b, c)`; triangles wound
/// clockwise in this y-up plane come out negative.
pub open spec fn signed_area2(a: Point, b: Point, c: Point) -> int {
    (b.x - a.x) * (c.y - a.y) - (b.y - a.y) * (c.x - a.x)
}

/// Every vertex used by some triangle of the sequence.
pub open spec fn triangle_vertices(tris: Seq<Triangle>) -> Set<Point> {
    Set::new(
        |p: Point|
            exists|i: int|
                0 <= i < tris.len() && ((#[trigger] tris[i]).p0 == p || tris[i].p1 == p
                    || tris[i].p2 == p),
    )
}

/// LAW (full fan coverage): a fan of exactly four colors uses precisely
/// the tile's four corners and its center as vertices, and its four
/// signed triangle areas add up to the tile's rectangular area — exactly,
/// whatever point the truncated center lands on.  The corners run
/// clockwise, so twice each signed area is negative and the four of them
/// sum to minus twice `width * height`.
pub proof fn lemma_full_fan_covers_tile(t: Tile, colors: Seq<Color>)
    requires
        t.wf(),
        colors.len() == 4,
    ensures
        triangle_vertices(fan_seq(t, colors)) =~= set![
            t.corner_spec(0),
            t.corner_spec(1),
            t.corner_spec(2),
            t.corner_spec(3),
            t.center_spec(),
        ],
        signed_area2(t.corner_spec(0), t.corner_spec(1), t.center_spec()) + signed_area2(
            t.corner_spec(1),
            t.corner_spec(2),
            t.center_spec(),
        ) + signed_area2(t.corner_spec(2), t.corner_spec(3), t.center_spec()) + signed_area2(
            t.corner_spec(3),
            t.corner_spec(0),
            t.center_spec(),
        ) == -2 * (t.bottom_right.x - t.top_left.x) * (t.top_left.y - t.bottom_right.y),
{
    let tris = fan_seq(t, colors);
    let corners = set![
        t.corner_spec(0),
        t.corner_spec(1),
        t.corner_spec(2),
        t.corner_spec(3),
        t.center_spec(),
    ];
    assert forall|p: Point| triangle_vertices(tris).contains(p) implies corners.contains(p) by {
        let i = choose|i: int|
            0 <= i < tris.len() && ((#[trigger] tris[i]).p0 == p || tris[i].p1 == p || tris[i].p2
                == p);
        assert(tris[i] == fan_triangle(t, i, colors[i]));
        assert(i == 0 || i == 1 || i == 2 || i == 3);
    }
    assert forall|p: Point| corners.contains(p) implies triangle_vertices(tris).contains(p) by {
        assert(tris[0] == fan_triangle(t, 0, colors[0]));
        assert(tris[1] == fan_triangle(t, 1, colors[1]));
        assert(tris[2] == fan_triangle(t, 2, colors[2]));
        assert(tris[3] == fan_triangle(t, 3, colors[3]));
    }
    let x0 = t.top_left.x as int;
    let y0 = t.top_left.y as int;
    let x1 = t.bottom_right.x as int;
    let y1 = t.bottom_right.y as int;
    let cx = t.center_spec().x as int;
    let cy = t.center_spec().y as int;
    assert((x1 - x0) * (cy - y0) - (y0 - y0) * (cx - x0) + ((x1 - x1) * (cy - y0) - (y1 - y0) * (cx
        - x1)) + ((x0 - x1) * (cy - y1) - (y1 - y1) * (cx - x1)) + ((x0 - x0) * (cy - y1) - (y0
        - y1) * (cx - x0)) == -2 * (x1 - x0) * (y0 - y1)) by (nonlinear_arith);
}

/// Width of one grid cell in thousandths of a unit: 80% of the viewport
/// width, divided evenly among the columns, truncated.
pub open spec fn cell_width(w: int, cols: int) -> int {
    800 * w / cols
}

/// Height of one grid cell in thousandths of a unit.
pub open spec fn cell_height(h: int, rows: int) -> int {
    800 * h / rows
}

/// Cell `t` of the grid, counted row-major from the top-left cell.  The top
/// row starts at half the viewport height, the left column at minus half
/// the viewport width.
pub open spec fn grid_tile(w: int, h: int, cols: int, rows: int, t: int) -> Tile {
    let col = t % cols;
    let row = t / cols;
    let cw = cell_width(w, cols);
    let ch = cell_height(h, rows);
    let x = -500 * w + cw * col;
    let y = 500 * h - ch * row;
    Tile {
        top_left: Point { x: x as i64, y: y as i64 },
        bottom_right: Point { x: (x + cw) as i64, y: (y - ch) as i64 },
    }
}

/// The triangles of the first `n` grid cells, row-major, each cell fanned
/// with the colors of its stage of the hierarchy.
pub open spec fn grid_seq(
    w: int,
    h: int,
    cols: int,
    rows: int,
    sets: Seq<Vec<Color>>,
    n: int,
) -> Seq<Triangle>
    decreases n,
{
    if n <= 0 {
        Seq::empty()
    } else {
        grid_seq(w, h, cols, rows, sets, n - 1) + fan_seq(
            grid_tile(w, h, cols, rows, n - 1),
            sets[n - 1]@,
        )
    }
}

/// Partitions the viewport into the grid of the nearest standard aspect
/// ratio and fans every cell into triangles, taking cell `t`'s colors from
/// stage `t` of the hierarchy.
///
/// Fails with `GridUnderflow` when the hierarchy has fewer stages than the
/// grid has cells, and with `TooManyColors` when a used stage holds more
/// than four colors.
pub fn layout_tiles(width: u32, height: u32, color_sets: &Vec<Vec<Color>>) -> (r: Result<
    Vec<Triangle>,
    LayoutError,
>)
    requires
        width >= 1,
        height >= 1,
    ensures
        ({
            let cols = closest_ratio_spec(width as int, height as int).0 as int;
            let rows = closest_ratio_spec(width as int, height as int).1 as int;
            let cells = cols * rows;
            match r {
                Ok(v) => color_sets@.len() >= cells && (forall|t: int|
                    0 <= t < cells ==> (#[trigger] color_sets@[t])@.len() <= 4) && v@ == grid_seq(
                    width as int,
                    height as int,
                    cols,
                    rows,
                    color_sets@,
                    cells,
                ),
                Err(e) => (e == LayoutError::GridUnderflow && color_sets@.len() < cells) || (e
                    == LayoutError::TooManyColors && color_sets@.len() >= cells && exists|t: int|
                    0 <= t < cells && (#[trigger] color_sets@[t])@.len() > 4),
            }
        }),
{
    let (cols, rows) = find_closest_ratio(width, height);
    proof {
        lemma_ratio_table_bounds();
        lemma_best_index_in_range(width as int, height as int, 8);
        assert(1 <= cols <= 24 && 1 <= rows <= 24);
        assert((cols as int) * (rows as int) <= 576) by (nonlinear_arith)
            requires
                1 <= cols <= 24,
                1 <= rows <= 24,
        ;
    }
    let cells = cols * rows;
    if color_sets.len() < cells {
        return Err(LayoutError::GridUnderflow);
    }
    let cell_w = 800 * (width as u64) / (cols as u64);
    let cell_h = 800 * (height as u64) / (rows as u64);
    proof {
        assert(cell_w <= 800 * 0xffff_ffffu64 && cell_h <= 800 * 0xffff_ffffu64)
            by (nonlinear_arith)
            requires
                cell_w == 800 * (width as int) / (cols as int),
                cell_h == 800 * (height as int) / (rows as int),
                1 <= cols,
                1 <= rows,
                width <= 0xffff_ffffu64,
                height <= 0xffff_ffffu64,
        ;
    }
    let origin_x: i64 = -500 * (width as i64);
    let origin_y: i64 = 500 * (height as i64);
    let mut v: Vec<Triangle> = Vec::new();
    let mut num_tile: usize = 0;
    proof {
        assert(0 * (cols as int) == 0) by (nonlinear_arith);
    }
    let ghost w_i = width as int;
    let ghost h_i = height as int;
    let ghost cols_i = cols as int;
    let ghost rows_i = rows as int;
    for row in 0..rows
        invariant
            width >= 1,
            height >= 1,
            w_i == width as int,
            h_i == height as int,
            cols_i == cols as int,
            rows_i == rows as int,
            1 <= cols <= 24,
            1 <= rows <= 24,
            closest_ratio_spec(w_i, h_i) == (cols, rows),
            cells == cols_i * rows_i,
            cells <= 576,
            color_sets@.len() >= cells,
            cell_w == cell_width(w_i, cols_i),
            cell_h == cell_height(h_i, rows_i),
            cell_w <= 800 * 0xffff_ffffu64,
            cell_h <= 800 * 0xffff_ffffu64,
            origin_x == -500 * w_i,
            origin_y == 500 * h_i,
            num_tile == row * cols_i,
            forall|t: int| 0 <= t < num_tile ==> (#[trigger] color_sets@[t])@.len() <= 4,
            v@ == grid_seq(w_i, h_i, cols_i, rows_i, color_sets@, num_tile as int),
    {
        for col in 0..cols
            invariant
                width >= 1,
                height >= 1,
                w_i == width as int,
                h_i == height as int,
                cols_i == cols as int,
                rows_i == rows as int,
                1 <= cols <= 24,
                1 <= rows <= 24,
                row < rows,
                closest_ratio_spec(w_i, h_i) == (cols, rows),
                cells == cols_i * rows_i,
                cells <= 576,
                color_sets@.len() >= cells,
                cell_w == cell_width(w_i, cols_i),
                cell_h == cell_height(h_i, rows_i),
                cell_w <= 800 * 0xffff_ffffu64,
                cell_h <= 800 * 0xffff_ffffu64,
                origin_x == -500 * w_i,
                origin_y == 500 * h_i,
                num_tile == row * cols_i + col,
                forall|t: int| 0 <= t < num_tile ==> (#[trigger] color_sets@[t])@.len() <= 4,
                v@ == grid_seq(w_i, h_i, cols_i, rows_i, color_sets@, num_tile as int),
        {
            proof {
                assert(num_tile < cells) by (nonlinear_arith)
                    requires
                        num_tile == row * cols_i + col,
                        cells == cols_i * rows_i,
                        0 <= col < cols_i,
                        0 <= row < rows_i,
                ;
            }
            if color_sets[num_tile].len() > 4 {
                proof {
                    assert(exists|t: int|
                        0 <= t < cells && (#[trigger] color_sets@[t])@.len() > 4) by {
                        assert(0 <= num_tile < cells && (color_sets@[num_tile as int])@.len() > 4);
                    }
                }
                return Err(LayoutError::TooManyColors);
            }
            proof {
                assert((cell_w as i64) * (col as i64) <= 800 * 0xffff_ffffi64 * 24
                    && (cell_h as i64) * (row as i64) <= 800 * 0xffff_ffffi64 * 24
                    && 0 <= (cell_w as i64) * (col as i64) && 0 <= (cell_h as i64) * (row as i64))
                    by (nonlinear_arith)
                    requires
                        0 <= (cell_w as i64) <= 800 * 0xffff_ffffi64,
                        0 <= (cell_h as i64) <= 800 * 0xffff_ffffi64,
                        0 <= (col as i64) < 24,
                        0 <= (row as i64) < 24,
                ;
            }
            let x = origin_x + (cell_w as i64) * (col as i64);
            let y = origin_y - (cell_h as i64) * (row as i64);
            let tile = Tile::new_from_top_left(x, y, cell_w as i64, cell_h as i64);
            proof {
                vstd::arithmetic::div_mod::lemma_fundamental_div_mod_converse(
                    num_tile as int,
                    cols_i,
                    row as int,
                    col as int,
                );
                assert(tile == grid_tile(w_i, h_i, cols_i, rows_i, num_tile as int));
            }
            let tris = match triangulate(&tile, &color_sets[num_tile]) {
                Ok(tris) => tris,
                Err(e) => {
                    return Err(e);
                },
            };
            let mut tris = tris;
            v.append(&mut tris);
            proof {
                assert(v@ =~= grid_seq(w_i, h_i, cols_i, rows_i, color_sets@, num_tile + 1));
            }
            num_tile = num_tile + 1;
        }
        proof {
            assert((row + 1) * cols_i == row * cols_i + cols_i) by (nonlinear_arith);
        }
    }
    proof {
        assert(num_tile == cells) by (nonlinear_arith)
            requires
                num_tile == rows_i * cols_i,
                cells == cols_i * rows_i,
        ;
    }
    Ok(v)
}



} // verus!
