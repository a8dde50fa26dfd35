//! The sharable pixel canvas: a persistent vector of colors in row-major
//! order, with bounds-checked reads and copy-on-write updates.

use vstd::prelude::*;
use crate::color::Rgba;
use crate::imvec::{
    im_vec_clone, im_vec_get, im_vec_model, im_vec_new, im_vec_push_back, im_vec_update,
};
use crate::position::Position;

verus! {

/// The channels of a color as a plain tuple, as the canvas stores them.
pub open spec fn spec_rgba_tuple(c: Rgba) -> (u8, u8, u8, u8) {
    (c.rgb.r, c.rgb.g, c.rgb.b, c.alpha)
}

/// A `w` by `h` canvas. Updates return a new canvas and share storage with
/// the old one.
#[derive(Debug)]
pub struct Canvas {
    data: im_rc::Vector<(u8, u8, u8, u8)>,
    w: u32,
    h: u32,
}

impl Clone for Canvas {
    /// A clone holds the same cells at the same size.
    fn clone(&self) -> (r: Self)
        ensures
            r.cells() == self.cells(),
            r.spec_w() == self.spec_w(),
            r.spec_h() == self.spec_h(),
    {
        Self { data: im_vec_clone(&self.data), w: self.w, h: self.h }
    }
}

impl Canvas {
    /// The cells in row-major order.
    pub closed spec fn cells(&self) -> Seq<(u8, u8, u8, u8)> {
        im_vec_model(self.data)
    }

    /// The width of the canvas.
    pub closed spec fn spec_w(&self) -> u32 {
        self.w
    }

    /// The height of the canvas.
    pub closed spec fn spec_h(&self) -> u32 {
        self.h
    }

    /// The canvas holds exactly one cell per coordinate pair, and the cell
    /// count is representable.
    pub open spec fn wf(&self) -> bool {
        &&& self.cells().len() == self.spec_w() * self.spec_h()
        &&& self.spec_w() * self.spec_h() <= u32::MAX
    }

    /// A fresh canvas of the given size, fully opaque black.
    pub fn new(size: (u32, u32)) -> (c: Self)
        requires
            size.0 * size.1 <= u32::MAX,
        ensures
            c.wf(),
            c.spec_w() == size.0,
            c.spec_h() == size.1,
            forall|k: int|
                0 <= k < c.cells().len() ==> c.cells()[k] == (0u8, 0u8, 0u8, 255u8),
    {
        let (w, h) = size;
        let total: u32 = w * h;
        let mut data = im_vec_new();
        let mut k: u32 = 0;
        while k < total
            invariant
                0 <= k <= total,
                im_vec_model(data).len() == k,
                forall|kk: int|
                    0 <= kk < k ==> im_vec_model(data)[kk] == (0u8, 0u8, 0u8, 255u8),
            decreases total - k,
        {
            let d = Rgba::default();
            im_vec_push_back(&mut data, (d.rgb.r, d.rgb.g, d.rgb.b, d.alpha));
            k = k + 1;
        }
        Self { data, w, h }
    }

    /// The size as `(width, height)`.
    pub fn size(&self) -> (s: (u32, u32))
        ensures
            s == (self.spec_w(), self.spec_h()),
    {
        (self.w, self.h)
    }

    /// Whether `pos` lies on the canvas.
    pub fn contains(&self, pos: &Position) -> (b: bool)
        ensures
            b == (pos.x < self.spec_w() && pos.y < self.spec_h()),
    {
        let (w, h) = self.size();
        let (x, y) = pos.xy();
        x < w && y < h
    }

    /// A canvas identical to this one but with the cell at `pos` set to
    /// `color`.
    pub fn update(&self, pos: &Position, color: Rgba) -> (c: Self)
        requires
            self.wf(),
            pos.x < self.spec_w(),
            pos.y < self.spec_h(),
        ensures
            c.wf(),
            c.spec_w() == self.spec_w(),
            c.spec_h() == self.spec_h(),
            c.cells() == self.cells().update(
                pos.y * self.spec_w() + pos.x,
                spec_rgba_tuple(color),
            ),
    {
        let (w, h) = self.size();
        let (x, y) = pos.xy();
        assert(y * w + x < w * h) by (nonlinear_arith)
            requires
                x < w,
                y < h,
        ;
        let idx: u32 = y * w + x;
        let data = im_vec_update(
            &self.data,
            idx as usize,
            (color.rgb.r, color.rgb.g, color.rgb.b, color.alpha),
        );
        Self { data, w, h }
    }

    /// The color of the cell at `pos`.
    pub fn at(&self, pos: &Position) -> (color: Rgba)
        requires
            self.wf(),
            pos.x < self.spec_w(),
            pos.y < self.spec_h(),
        ensures
            spec_rgba_tuple(color) == self.cells()[pos.y * self.spec_w() + pos.x],
    {
        let (w, h) = self.size();
        let (x, y) = pos.xy();
        assert(y * w + x < w * h) by (nonlinear_arith)
            requires
                x < w,
                y < h,
        ;
        let idx: u32 = y * w + x;
        let t = im_vec_get(&self.data, idx as usize);
        Rgba::new(t.0, t.1, t.2, t.3)
    }
}

} // verus!
