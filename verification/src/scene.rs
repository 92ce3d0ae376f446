//! Scene selection: the three visualizations and the cycling index.
//!
//! The windowing host owns input and rendering; this module only decides
//! which scene is current, which hierarchy it uses, and what comes next.

use vstd::prelude::*;

use crate::color::Color;
use crate::color_peaks;
use crate::gradients;
use crate::hue_wheel;

verus! {

/// The three built-in visualizations.
#[derive(Clone, Copy, Debug, PartialEq, Eq, Structural)]
pub enum VisualizerScene {
    HueWheel,
    ColorPeaks,
    Gradients,
}

impl VisualizerScene {
    /// The built-in color hierarchy that this scene is generated from.
    pub fn generate_colors(&self) -> (r: Vec<Vec<Color>>)
        ensures
            match self {
                VisualizerScene::HueWheel => r@.len() == 5 && forall|k: int|
                    0 <= k < 5 ==> (#[trigger] r@[k])@ == hue_wheel::hues_spec()[k],
                VisualizerScene::ColorPeaks => r@.len() == 24 && forall|k: int|
                    0 <= k < 24 ==> (#[trigger] r@[k])@ == color_peaks::peaks_table()[k + 1],
                VisualizerScene::Gradients => r@.len() == 4 && forall|k: int|
                    0 <= k < 4 ==> (#[trigger] r@[k])@ == gradients::gradient_pairs_spec()[k],
            },
    {
        match self {
            VisualizerScene::HueWheel => hue_wheel::generate_hues(),
            VisualizerScene::ColorPeaks => color_peaks::generate_colors(),
            VisualizerScene::Gradients => gradients::generate_colors(),
        }
    }
}

/// The scene cycle: which scene is showing and the order they rotate in.
pub struct SceneConfig {
    pub pos: usize,
    pub scenes: Vec<VisualizerScene>,
}

impl SceneConfig {
    /// The current position always points at a scene.
    pub open spec fn wf(self) -> bool {
        self.pos < self.scenes@.len()
    }

    /// A fresh cycle over the three scenes, hue wheel first.
    pub fn new() -> (c: SceneConfig)
        ensures
            c.pos == 0,
            c.scenes@ == seq![
                VisualizerScene::HueWheel,
                VisualizerScene::ColorPeaks,
                VisualizerScene::Gradients,
            ],
            c.wf(),
    {
        let mut scenes: Vec<VisualizerScene> = Vec::new();
        scenes.push(VisualizerScene::HueWheel);
        scenes.push(VisualizerScene::ColorPeaks);
        scenes.push(VisualizerScene::Gradients);
        proof {
            assert(scenes@ =~= seq![
                VisualizerScene::HueWheel,
                VisualizerScene::ColorPeaks,
                VisualizerScene::Gradients,
            ]);
        }
        SceneConfig { pos: 0, scenes }
    }

    /// Steps to the next scene, wrapping back to the first after the
    /// last.
    pub fn advance(&mut self)
        requires
            old(self).wf(),
        ensures
            final(self).scenes == old(self).scenes,
            final(self).pos == if old(self).pos + 1 < old(self).scenes@.len() {
                old(self).pos + 1
            } else {
                0
            },
            final(self).wf(),
    {
        let len = self.scenes.len();
        self.pos = if self.pos + 1 < len {
            self.pos + 1
        } else {
            0
        };
    }

    /// The scene the cycle currently rests on.
    pub fn current(&self) -> (s: VisualizerScene)
        requires
            self.wf(),
        ensures
            s == self.scenes@[self.pos as int],
    {
        self.scenes[self.pos]
    }
}

} // verus!
