//! The editor viewport's controls: the view's quarter turns and the zoom level.
use vstd::prelude::*;

use crate::editor::CHANGE_UPDATE_MODEL;

verus! {

/// The smallest zoom level.
pub const MIN_ZOOM: usize = 1;

/// The largest zoom level.
pub const MAX_ZOOM: usize = 4;

/// A press of one of the viewport's buttons.
#[derive(Clone, Copy, Debug, PartialEq, Eq, Structural)]
pub enum ViewportButton {
    /// Turn the view a quarter turn.
    Rotate,
    /// Show the image smaller.
    ZoomOut,
    /// Show the image larger.
    ZoomIn,
}

/// The view's quarter turns and the zoom level.
#[derive(Clone, Copy, Debug, PartialEq, Eq, Structural)]
pub struct ViewportControls {
    pub rotation: usize,
    pub zoom: usize,
}

impl ViewportControls {
    /// The zoom level lies between the smallest and the largest.
    pub open spec fn wf(&self) -> bool {
        MIN_ZOOM <= self.zoom <= MAX_ZOOM
    }

    /// The first view at the smallest zoom.
    pub fn new() -> (r: ViewportControls)
        ensures
            r.wf(),
            r.rotation == 0,
            r.zoom == MIN_ZOOM,
    {
        ViewportControls { rotation: 0, zoom: MIN_ZOOM }
    }

    /// Whether the zoom-out button is enabled.
    pub fn can_zoom_out(&self) -> (r: bool)
        ensures
            r == (self.zoom > MIN_ZOOM),
    {
        self.zoom > MIN_ZOOM
    }

    /// Whether the zoom-in button is enabled.
    pub fn can_zoom_in(&self) -> (r: bool)
        ensures
            r == (self.zoom < MAX_ZOOM),
    {
        self.zoom < MAX_ZOOM
    }

    /// Applies a button press, and returns the editor changes it asks for: a turn asks for the
    /// model to be updated; a press of a disabled zoom button does nothing.
    pub fn press(&mut self, button: ViewportButton) -> (changes: u32)
        requires
            old(self).wf(),
        ensures
            final(self).wf(),
            match button {
                ViewportButton::Rotate => {
                    &&& final(self).rotation == (old(self).rotation + 1) % 4
                    &&& final(self).zoom == old(self).zoom
                    &&& changes == CHANGE_UPDATE_MODEL
                },
                ViewportButton::ZoomOut => {
                    &&& final(self).rotation == old(self).rotation
                    &&& final(self).zoom == if old(self).zoom > MIN_ZOOM {
                        old(self).zoom - 1
                    } else {
                        old(self).zoom as int
                    }
                    &&& changes == 0
                },
                ViewportButton::ZoomIn => {
                    &&& final(self).rotation == old(self).rotation
                    &&& final(self).zoom == if old(self).zoom < MAX_ZOOM {
                        old(self).zoom + 1
                    } else {
                        old(self).zoom as int
                    }
                    &&& changes == 0
                },
            },
    {
        match button {
            ViewportButton::Rotate => {
                self.rotation = (self.rotation % 4 + 1) % 4;
                proof {
                    vstd::arithmetic::div_mod::lemma_add_mod_noop(old(self).rotation as int, 1, 4);
                }
                CHANGE_UPDATE_MODEL
            },
            ViewportButton::ZoomOut => {
                if self.zoom > MIN_ZOOM {
                    self.zoom = self.zoom - 1;
                }
                0
            },
            ViewportButton::ZoomIn => {
                if self.zoom < MAX_ZOOM {
                    self.zoom = self.zoom + 1;
                }
                0
            },
        }
    }
}

} // verus!
