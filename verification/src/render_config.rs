//! Zoom and rotation at which single pages are rendered outside the
//! scrolling view.

use vstd::prelude::*;

verus! {

/// Smallest zoom factor a renderer takes, in thousandths.
pub const MIN_RENDER_ZOOM: u32 = 100;

/// Largest zoom factor a renderer takes, in thousandths.
pub const MAX_RENDER_ZOOM: u32 = 5000;

/// `zoom` held between `MIN_RENDER_ZOOM` and `MAX_RENDER_ZOOM`.
pub open spec fn clamp_zoom(zoom: u32) -> u32 {
    if zoom < MIN_RENDER_ZOOM {
        MIN_RENDER_ZOOM
    } else if zoom > MAX_RENDER_ZOOM {
        MAX_RENDER_ZOOM
    } else {
        zoom
    }
}

/// `rotation` brought into the full turn around zero: the remainder of the
/// division by 360 that has the sign of `rotation`.
pub open spec fn wrap_rotation(rotation: i32) -> int {
    if rotation >= 0 {
        rotation as int % 360
    } else {
        -((-(rotation as int)) % 360)
    }
}

/// How a document is rendered: zoom in thousandths, rotation in degrees.
#[derive(Clone, Copy, Debug, PartialEq, Eq, Structural)]
pub struct PdfConfig {
    pub zoom: u32,
    pub rotation: i32,
    pub crop_enabled: bool,
}

impl Default for PdfConfig {
    fn default() -> (config: PdfConfig)
        ensures
            config == (PdfConfig { zoom: 1000, rotation: 0, crop_enabled: false }),
    {
        PdfConfig { zoom: 1000, rotation: 0, crop_enabled: false }
    }
}

/// The zoom and rotation of a page renderer.
#[derive(Clone, Copy, Debug, PartialEq, Eq, Structural)]
pub struct PageRender {
    pub zoom: u32,
    pub rotation: i32,
}

impl PageRender {
    pub fn new() -> (render: PageRender)
        ensures
            render == (PageRender { zoom: 1000, rotation: 0 }),
    {
        PageRender { zoom: 1000, rotation: 0 }
    }

    /// Takes a zoom factor, held between a tenth and five.
    pub fn set_zoom(&mut self, zoom: u32)
        ensures
            final(self).zoom == clamp_zoom(zoom),
            final(self).rotation == old(self).rotation,
    {
        self.zoom = if zoom < MIN_RENDER_ZOOM {
            MIN_RENDER_ZOOM
        } else if zoom > MAX_RENDER_ZOOM {
            MAX_RENDER_ZOOM
        } else {
            zoom
        };
    }

    /// Takes a rotation in degrees, brought into the full turn around zero.
    pub fn set_rotation(&mut self, rotation: i32)
        ensures
            final(self).rotation as int == wrap_rotation(rotation),
            final(self).zoom == old(self).zoom,
    {
        self.rotation = if rotation >= 0 {
            ((rotation as u32) % 360) as i32
        } else {
            let magnitude: u32 = (-(rotation as i64)) as u32;
            -((magnitude % 360) as i32)
        };
    }
}

impl Default for PageRender {
    fn default() -> (render: PageRender)
        ensures
            render == (PageRender { zoom: 1000, rotation: 0 }),
    {
        PageRender::new()
    }
}

} // verus!
