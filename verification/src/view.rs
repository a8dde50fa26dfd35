//! A rectangular view onto the canvas: an origin and a clamped, positive
//! width and height.

use vstd::prelude::*;

verus! {

/// A view rectangle. Its width and height are at least 1 and never reach
/// past `u32::MAX` from the origin.
#[derive(Debug, Clone, Copy, PartialEq, Eq, Structural)]
pub struct Viewport {
    pub org_x: u32,
    pub org_y: u32,
    pub w: u32,
    pub h: u32,
}

/// The width a view adopts for origin `org` and requested extent `e`:
/// at least 1, and clamped so that `org + width - 1` stays representable.
pub open spec fn spec_clamp_extent(org: u32, e: u32) -> int {
    let e1 = if e < 1 { 1int } else { e as int };
    if e1 - 1 <= u32::MAX - org {
        e1
    } else {
        u32::MAX - org + 1
    }
}

/// Every view built by the constructors satisfies this.
pub open spec fn spec_view_wf(v: Viewport) -> bool {
    &&& v.w >= 1
    &&& v.h >= 1
    &&& v.org_x + v.w - 1 <= u32::MAX
    &&& v.org_y + v.h - 1 <= u32::MAX
}

impl Viewport {
    pub fn new(org: (u32, u32), extent: (u32, u32)) -> (v: Self)
        ensures
            v.org_x == org.0,
            v.org_y == org.1,
            v.w == spec_clamp_extent(org.0, extent.0),
            v.h == spec_clamp_extent(org.1, extent.1),
            spec_view_wf(v),
    {
        let (org_x, org_y) = org;
        let (w, h) = extent;
        let w: u32 = if w < 1 { 1 } else { w };
        let w: u32 = (if w - 1 <= u32::MAX - org_x { w - 1 } else { u32::MAX - org_x }) + 1;
        let h: u32 = if h < 1 { 1 } else { h };
        let h: u32 = (if h - 1 <= u32::MAX - org_y { h - 1 } else { u32::MAX - org_y }) + 1;
        Self { org_x, org_y, w, h }
    }

    pub fn default() -> (v: Self)
        ensures
            v == (Viewport { org_x: 0u32, org_y: 0u32, w: u32::MAX, h: u32::MAX }),
            spec_view_wf(v),
    {
        Self::new((0, 0), (u32::MAX, u32::MAX))
    }

    /// The same extent, re-clamped at a new origin.
    pub fn move_org(&self, org: (u32, u32)) -> (v: Self)
        ensures
            v.org_x == org.0,
            v.org_y == org.1,
            v.w == spec_clamp_extent(org.0, self.w),
            v.h == spec_clamp_extent(org.1, self.h),
            spec_view_wf(v),
    {
        Self::new(org, (self.w, self.h))
    }

    /// The same origin with a new, clamped extent.
    pub fn stretch(&self, extent: (u32, u32)) -> (v: Self)
        ensures
            v.org_x == self.org_x,
            v.org_y == self.org_y,
            v.w == spec_clamp_extent(self.org_x, extent.0),
            v.h == spec_clamp_extent(self.org_y, extent.1),
            spec_view_wf(v),
    {
        Self::new((self.org_x, self.org_y), extent)
    }

    /// The four components as a tuple.
    pub fn bounds(&self) -> (t: (u32, u32, u32, u32))
        ensures
            t == (self.org_x, self.org_y, self.w, self.h),
    {
        (self.org_x, self.org_y, self.w, self.h)
    }
}

} // verus!
