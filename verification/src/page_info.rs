//! What the decoder reports about one page.

use crate::geometry::{Rect, Scale};
use vstd::prelude::*;

verus! {

/// Identity, native size and current render scale of a page.
#[derive(Clone, Copy, Debug)]
pub struct PageInfo {
    /// Position of the page in its document; never changes.
    pub index: usize,
    /// Native width.
    pub width: i64,
    /// Native height.
    pub height: i64,
    /// Render scale, rewritten by every layout pass.
    pub scale: Scale,
    /// The part of the page that remains when margins are cropped away.
    pub crop_bounds: Option<Rect>,
}

impl PageInfo {
    pub fn new(index: usize, width: i64, height: i64) -> (info: PageInfo)
        ensures
            info == (PageInfo {
                index,
                width,
                height,
                scale: Scale { num: 1, den: 1 },
                crop_bounds: None,
            }),
    {
        PageInfo { index, width, height, scale: Scale::identity(), crop_bounds: None }
    }

    /// The width that layout and rendering go by: that of the crop rectangle
    /// when cropping is asked for and the page has one, else the native width.
    pub open spec fn spec_width(self, use_crop: bool) -> int {
        if use_crop && self.crop_bounds is Some {
            crate::geometry::clamp_i64(self.crop_bounds->0.spec_width())
        } else {
            self.width as int
        }
    }

    /// The height that layout and rendering go by.
    pub open spec fn spec_height(self, use_crop: bool) -> int {
        if use_crop && self.crop_bounds is Some {
            crate::geometry::clamp_i64(self.crop_bounds->0.spec_height())
        } else {
            self.height as int
        }
    }

    pub fn get_width(&self, use_crop: bool) -> (w: i64)
        ensures
            w as int == self.spec_width(use_crop),
    {
        if use_crop {
            if let Some(crop) = &self.crop_bounds {
                return crop.width();
            }
        }
        self.width
    }

    pub fn get_height(&self, use_crop: bool) -> (h: i64)
        ensures
            h as int == self.spec_height(use_crop),
    {
        if use_crop {
            if let Some(crop) = &self.crop_bounds {
                return crop.height();
            }
        }
        self.height
    }

    pub fn has_crop(&self) -> (r: bool)
        ensures
            r == (self.crop_bounds is Some),
    {
        self.crop_bounds.is_some()
    }
}

} // verus!
