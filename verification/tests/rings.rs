use color_layouts::color::Color;
use color_layouts::color::ColorName;
use color_layouts::hue_wheel::generate_hues;
use color_layouts::hue_wheel::layout_rings;
use color_layouts::hue_wheel::Angle;
use color_layouts::LayoutError;

fn named(n: ColorName) -> Color {
    Color::Named(n)
}

#[test]
fn white_and_primaries_make_two_rings() {
    let hierarchy = vec![
        vec![named(ColorName::White)],
        vec![named(ColorName::Red), named(ColorName::Green), named(ColorName::Blue)],
    ];
    let rings = layout_rings(800, 600, &hierarchy).unwrap();
    assert_eq!(rings.len(), 2);

    let (index0, inner) = &rings[0];
    assert_eq!(*index0, 0);
    assert_eq!(inner.len(), 1);
    // min(800, 600) / 16 = 37.5 viewport units, exact in sixteenths.
    assert_eq!(inner[0].radius_sixteenths, 600);
    assert_eq!(inner[0].half_angle, Angle { num: 1, den: 1 });
    assert_eq!(inner[0].rotation, Angle { num: 0, den: 1 });
    assert_eq!(inner[0].z_order, 0);
    assert_eq!(inner[0].color, named(ColorName::White));

    let (index1, outer) = &rings[1];
    assert_eq!(*index1, 1);
    assert_eq!(outer.len(), 3);
    // Twice the innermost radius: 75 viewport units.
    assert_eq!(outer[0].radius_sixteenths, 1200);
    // Half-angle of a three-color ring: a third of a half-turn.
    for sector in outer.iter() {
        assert_eq!(sector.half_angle, Angle { num: 1, den: 3 });
        assert_eq!(sector.z_order, -1);
    }
    assert_eq!(outer[0].rotation, Angle { num: 0, den: 3 });
    assert_eq!(outer[1].rotation, Angle { num: -2, den: 3 });
    assert_eq!(outer[2].rotation, Angle { num: -4, den: 3 });
    assert_eq!(outer[0].color, named(ColorName::Red));
    assert_eq!(outer[1].color, named(ColorName::Green));
    assert_eq!(outer[2].color, named(ColorName::Blue));
}

#[test]
fn radii_increase_strictly_across_the_wheel() {
    let rings = layout_rings(800, 600, &generate_hues()).unwrap();
    assert_eq!(rings.len(), 5);
    let mut previous = 0u64;
    for (_, sectors) in rings.iter() {
        let radius = sectors[0].radius_sixteenths;
        assert!(radius > previous);
        previous = radius;
    }
    assert_eq!(previous, 5 * 600);
}

#[test]
fn sector_angles_close_each_ring() {
    let rings = layout_rings(1024, 768, &generate_hues()).unwrap();
    for (_, sectors) in rings.iter() {
        let n = sectors.len() as i64;
        for sector in sectors.iter() {
            // n sectors of 2 * (num / den) half-turns close the circle.
            assert_eq!(n * 2 * sector.half_angle.num, 2 * sector.half_angle.den as i64);
        }
    }
}

#[test]
fn empty_ring_is_rejected() {
    let hierarchy = vec![vec![named(ColorName::White)], vec![]];
    assert_eq!(layout_rings(800, 600, &hierarchy), Err(LayoutError::EmptyRing));
}

#[test]
fn ring_depths_step_backward() {
    let rings = layout_rings(640, 480, &generate_hues()).unwrap();
    for (k, (_, sectors)) in rings.iter().enumerate() {
        for sector in sectors.iter() {
            assert_eq!(sector.z_order, -(k as i64));
        }
    }
}
