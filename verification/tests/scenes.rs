use color_layouts::color::Color;
use color_layouts::color::ColorName;
use color_layouts::color_peaks;
use color_layouts::gradients;
use color_layouts::hue_wheel;
use color_layouts::scene::SceneConfig;
use color_layouts::scene::VisualizerScene;

fn named(n: ColorName) -> Color {
    Color::Named(n)
}

#[test]
fn hue_rings_double_in_density() {
    let hues = hue_wheel::generate_hues();
    let lengths: Vec<usize> = hues.iter().map(|ring| ring.len()).collect();
    assert_eq!(lengths, vec![1, 3, 6, 12, 24]);
    assert_eq!(hues[0], vec![named(ColorName::White)]);
    assert_eq!(
        hues[1],
        vec![named(ColorName::Red), named(ColorName::Green), named(ColorName::Blue)]
    );
    assert_eq!(
        hues[2],
        vec![
            named(ColorName::Red),
            named(ColorName::Yellow),
            named(ColorName::Green),
            named(ColorName::Cyan),
            named(ColorName::Blue),
            named(ColorName::Magenta),
        ]
    );
    assert_eq!(hues[4][1], named(ColorName::Vermillion));
    assert_eq!(hues[4][23], named(ColorName::Ruby));
}

#[test]
fn peak_stages_walk_the_quaternary_wheel() {
    let stages = color_peaks::generate_colors();
    assert_eq!(stages.len(), 24);
    for stage in stages.iter() {
        assert_eq!(stage.len(), 4);
    }
    assert_eq!(
        stages[0],
        vec![
            named(ColorName::Red),
            named(ColorName::Vermillion),
            named(ColorName::Orange),
            named(ColorName::Amber),
        ]
    );
    // The last stage wraps around the wheel.
    assert_eq!(
        stages[23],
        vec![
            named(ColorName::Ruby),
            named(ColorName::Red),
            named(ColorName::Vermillion),
            named(ColorName::Orange),
        ]
    );
}

#[test]
fn gradient_pairs_run_black_to_primaries_then_the_hue_sweep() {
    let pairs = gradients::generate_colors();
    assert_eq!(pairs.len(), 4);
    assert_eq!(pairs[0], vec![named(ColorName::Black), named(ColorName::Red)]);
    assert_eq!(pairs[1], vec![named(ColorName::Black), named(ColorName::Green)]);
    assert_eq!(pairs[2], vec![named(ColorName::Black), named(ColorName::Blue)]);
    assert_eq!(
        pairs[3],
        vec![
            Color::SphericalHcl { hue_e4: 0, chroma_e4: 10000, luminance_e4: 10000 },
            Color::SphericalHcl { hue_e4: 9999, chroma_e4: 10000, luminance_e4: 10000 },
        ]
    );
}

#[test]
fn scene_dispatch_matches_the_generators() {
    assert_eq!(VisualizerScene::HueWheel.generate_colors().len(), 5);
    assert_eq!(VisualizerScene::ColorPeaks.generate_colors().len(), 24);
    assert_eq!(VisualizerScene::Gradients.generate_colors().len(), 4);
}

#[test]
fn scene_cycle_wraps_around() {
    let mut config = SceneConfig::new();
    assert_eq!(config.current(), VisualizerScene::HueWheel);
    config.advance();
    assert_eq!(config.current(), VisualizerScene::ColorPeaks);
    config.advance();
    assert_eq!(config.current(), VisualizerScene::Gradients);
    config.advance();
    assert_eq!(config.current(), VisualizerScene::HueWheel);
}
