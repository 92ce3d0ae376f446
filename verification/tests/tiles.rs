use color_layouts::color::Color;
use color_layouts::color::ColorName;
use color_layouts::color_peaks::generate_colors;
use color_layouts::color_peaks::layout_tiles;
use color_layouts::color_peaks::triangulate;
use color_layouts::color_peaks::Point;
use color_layouts::color_peaks::Tile;
use color_layouts::color_peaks::Triangle;
use color_layouts::LayoutError;

fn named(n: ColorName) -> Color {
    Color::Named(n)
}

/// Twice the signed area of a triangle, on exact integers.
fn area2(t: &Triangle) -> i128 {
    let (ax, ay) = (t.p0.x as i128, t.p0.y as i128);
    let (bx, by) = (t.p1.x as i128, t.p1.y as i128);
    let (cx, cy) = (t.p2.x as i128, t.p2.y as i128);
    (bx - ax) * (cy - ay) - (by - ay) * (cx - ax)
}

#[test]
fn tile_corners_and_center() {
    let tile = Tile::new_from_top_left(-400, 300, 800, 600);
    assert_eq!(tile.top_left(), Point { x: -400, y: 300 });
    assert_eq!(tile.top_right(), Point { x: 400, y: 300 });
    assert_eq!(tile.bottom_right(), Point { x: 400, y: -300 });
    assert_eq!(tile.bottom_left(), Point { x: -400, y: -300 });
    assert_eq!(tile.center(), Point { x: 0, y: 0 });
}

#[test]
fn four_color_fan_uses_corners_and_center() {
    let tile = Tile::new_from_top_left(-400, 300, 800, 600);
    let colors = vec![
        named(ColorName::Red),
        named(ColorName::Yellow),
        named(ColorName::Green),
        named(ColorName::Blue),
    ];
    let fan = triangulate(&tile, &colors).unwrap();
    assert_eq!(fan.len(), 4);
    let corners = [
        tile.top_left(),
        tile.top_right(),
        tile.bottom_right(),
        tile.bottom_left(),
    ];
    let center = tile.center();
    for (i, tri) in fan.iter().enumerate() {
        assert_eq!(tri.p0, corners[i]);
        assert_eq!(tri.p1, corners[(i + 1) % 4]);
        assert_eq!(tri.p2, center);
        assert_eq!(tri.color, colors[i]);
    }
    // The four fan triangles tile the rectangle: their areas sum to the
    // full 800 x 600, exactly.
    let total: i128 = fan.iter().map(|t| area2(t).abs()).sum();
    assert_eq!(total, 2 * 800 * 600);
}

#[test]
fn odd_sized_tile_area_is_exact_despite_truncated_center() {
    let tile = Tile::new_from_top_left(-3, 5, 7, 9);
    let colors = vec![
        named(ColorName::Red),
        named(ColorName::Yellow),
        named(ColorName::Green),
        named(ColorName::Blue),
    ];
    let fan = triangulate(&tile, &colors).unwrap();
    let total: i128 = fan.iter().map(|t| -area2(t)).sum();
    assert_eq!(total, 2 * 7 * 9);
}

#[test]
fn partial_fan_is_valid() {
    let tile = Tile::new_from_top_left(0, 0, 100, 100);
    let colors = vec![named(ColorName::Red), named(ColorName::Green)];
    let fan = triangulate(&tile, &colors).unwrap();
    assert_eq!(fan.len(), 2);
    assert_eq!(fan[1].p0, tile.top_right());
    assert_eq!(fan[1].p1, tile.bottom_right());
}

#[test]
fn five_colors_are_rejected() {
    let tile = Tile::new_from_top_left(0, 0, 100, 100);
    let colors = vec![named(ColorName::Red); 5];
    assert_eq!(triangulate(&tile, &colors), Err(LayoutError::TooManyColors));
}

#[test]
fn grid_layout_fills_every_cell() {
    // 1000 x 1000 matches the (4, 6) grid: 24 cells, which is exactly
    // what the built-in hierarchy supplies, four colors each.
    let tris = layout_tiles(1000, 1000, &generate_colors()).unwrap();
    assert_eq!(tris.len(), 24 * 4);
    // Cell geometry: 80% of the viewport split into 4 columns of the
    // thousandths-scaled width.
    let first = &tris[0];
    assert_eq!(first.p0, Point { x: -500_000, y: 500_000 });
    let second_cell = &tris[4];
    assert_eq!(second_cell.p0, Point { x: -500_000 + 200_000, y: 500_000 });
}

#[test]
fn too_few_stages_underflow() {
    let stages = vec![vec![named(ColorName::Red)]; 2];
    assert_eq!(
        layout_tiles(1920, 1080, &stages),
        Err(LayoutError::GridUnderflow)
    );
}

#[test]
fn oversized_stage_is_rejected() {
    let mut stages = vec![vec![named(ColorName::Red)]; 24];
    stages[3] = vec![named(ColorName::Red); 5];
    assert_eq!(
        layout_tiles(1000, 1000, &stages),
        Err(LayoutError::TooManyColors)
    );
}
