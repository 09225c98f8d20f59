//! Scene renderers: they repaint when the scene on show changes and keep
//! count of what they were asked and what they did.

use crate::counting::{count_up, saturating_succ_u64};
use crate::drivers::{DisplayDriver, Rect};
use crate::runtime::RuntimeState;
use crate::ui::Scene;
use vstd::prelude::*;

verus! {

/// How often a renderer was asked for a frame and how often it repainted.
#[derive(Clone, Copy, Debug, PartialEq, Eq, Structural)]
pub struct RenderStats {
    pub frames_requested: u64,
    pub scenes_rendered: u64,
}

impl RenderStats {
    pub fn new() -> (stats: Self)
        ensures
            stats == (RenderStats { frames_requested: 0, scenes_rendered: 0 }),
    {
        RenderStats { frames_requested: 0, scenes_rendered: 0 }
    }

    /// The stats after one more request, which repainted or did not.
    pub open spec fn counted(self, repainted: bool) -> RenderStats {
        RenderStats {
            frames_requested: saturating_succ_u64(self.frames_requested),
            scenes_rendered: if repainted {
                saturating_succ_u64(self.scenes_rendered)
            } else {
                self.scenes_rendered
            },
        }
    }

    fn count(&mut self, repainted: bool)
        ensures
            *final(self) == old(self).counted(repainted),
    {
        count_up(&mut self.frames_requested);
        if repainted {
            count_up(&mut self.scenes_rendered);
        }
    }
}

impl Default for RenderStats {
    fn default() -> (stats: Self)
        ensures
            stats == (RenderStats { frames_requested: 0, scenes_rendered: 0 }),
    {
        RenderStats::new()
    }
}

/// What shows the scene of a runtime state.
pub trait SceneRenderer {
    /// Shows the scene of `state`; says whether anything was repainted.
    fn render(&mut self, state: &RuntimeState, now_ms: u64) -> bool;

    fn stats(&self) -> &RenderStats;
}

/// What a renderer remembers: the scene it painted last, its counts, and
/// whether the next request repaints whatever the scene.
pub struct RendererModel {
    pub current_scene: Option<Scene>,
    pub stats: RenderStats,
    pub force_next_render: bool,
}

impl RendererModel {
    /// Whether a request to show `scene` repaints.
    pub open spec fn repaints(self, scene: Scene) -> bool {
        self.force_next_render || self.current_scene != Some(scene)
    }

    /// The renderer after a request to show `scene`.
    pub open spec fn rendered(self, scene: Scene) -> RendererModel {
        RendererModel {
            current_scene: if self.repaints(scene) {
                Some(scene)
            } else {
                self.current_scene
            },
            stats: self.stats.counted(self.repaints(scene)),
            force_next_render: false,
        }
    }
}

/// A renderer that paints nothing and only keeps track of the scene.
pub struct NullRenderer {
    current_scene: Option<Scene>,
    stats_: RenderStats,
}

impl View for NullRenderer {
    type V = RendererModel;

    closed spec fn view(&self) -> RendererModel {
        RendererModel {
            current_scene: self.current_scene,
            stats: self.stats_,
            force_next_render: false,
        }
    }
}

impl NullRenderer {
    pub fn new() -> (renderer: Self)
        ensures
            renderer@ == (RendererModel {
                current_scene: None,
                stats: RenderStats { frames_requested: 0, scenes_rendered: 0 },
                force_next_render: false,
            }),
    {
        NullRenderer { current_scene: None, stats_: RenderStats::new() }
    }
}

impl Default for NullRenderer {
    fn default() -> (renderer: Self)
        ensures
            renderer@ == (RendererModel {
                current_scene: None,
                stats: RenderStats { frames_requested: 0, scenes_rendered: 0 },
                force_next_render: false,
            }),
    {
        NullRenderer::new()
    }
}

impl SceneRenderer for NullRenderer {
    /// Repaints exactly when the scene of `state` is not the one painted
    /// last.
    fn render(&mut self, state: &RuntimeState, now_ms: u64) -> (repainted: bool)
        ensures
            repainted == old(self)@.repaints(state@.scene()),
            final(self)@ == old(self)@.rendered(state@.scene()),
    {
        let target = state.scene();
        let repainted = match self.current_scene {
            Some(scene) => scene != target,
            None => true,
        };
        if repainted {
            self.current_scene = Some(target);
        }
        self.stats_.count(repainted);
        repainted
    }

    fn stats(&self) -> (stats: &RenderStats)
        ensures
            *stats == self@.stats,
    {
        &self.stats_
    }
}

/// A renderer that repaints the whole panel of a display driver.
pub struct DisplaySceneRenderer<D: DisplayDriver> {
    display: D,
    current_scene: Option<Scene>,
    stats_: RenderStats,
    force_next_render: bool,
}

impl<D: DisplayDriver> View for DisplaySceneRenderer<D> {
    type V = RendererModel;

    closed spec fn view(&self) -> RendererModel {
        RendererModel {
            current_scene: self.current_scene,
            stats: self.stats_,
            force_next_render: self.force_next_render,
        }
    }
}

impl<D: DisplayDriver> DisplaySceneRenderer<D> {
    /// Initialises `display`, sets it to half brightness, and starts with
    /// nothing painted: the first request repaints.
    pub fn new(display: D) -> (renderer: Self)
        ensures
            renderer@ == (RendererModel {
                current_scene: None,
                stats: RenderStats { frames_requested: 0, scenes_rendered: 0 },
                force_next_render: true,
            }),
    {
        let mut display = display;
        let _ = display.init();
        let _ = display.set_brightness(128);
        DisplaySceneRenderer {
            display,
            current_scene: None,
            stats_: RenderStats::new(),
            force_next_render: true,
        }
    }

    /// Makes the next request repaint whatever the scene.
    pub fn force_render_once(&mut self)
        ensures
            final(self)@ == (RendererModel { force_next_render: true, ..old(self)@ }),
    {
        self.force_next_render = true;
    }
}

impl<D: DisplayDriver> SceneRenderer for DisplaySceneRenderer<D> {
    /// Repaints the whole panel when a repaint was forced or the scene of
    /// `state` is not the one painted last. What the driver answers does
    /// not change the outcome.
    fn render(&mut self, state: &RuntimeState, now_ms: u64) -> (repainted: bool)
        ensures
            repainted == old(self)@.repaints(state@.scene()),
            final(self)@ == old(self)@.rendered(state@.scene()),
    {
        let target = state.scene();
        let changed = match self.current_scene {
            Some(scene) => scene != target,
            None => true,
        };
        let repainted = self.force_next_render || changed;
        if repainted {
            let region = Rect { x: 0, y: 0, w: self.display.width(), h: self.display.height() };
            let pixels: Vec<u8> = Vec::new();
            let _ = self.display.flush_region(region, pixels.as_slice());
            self.current_scene = Some(target);
            self.force_next_render = false;
        }
        self.stats_.count(repainted);
        repainted
    }

    fn stats(&self) -> (stats: &RenderStats)
        ensures
            *stats == self@.stats,
    {
        &self.stats_
    }
}

} // verus!
