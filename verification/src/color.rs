//! Colors: opaque RGB triples, a widened intermediate form for compositing
//! arithmetic, and RGBA colors with source-over alpha compositing.

use vstd::prelude::*;

verus! {

/// An RGB color, one byte per channel.
#[derive(Debug, Clone, Copy, PartialEq, Eq, Structural)]
pub struct Rgb {
    pub r: u8,
    pub g: u8,
    pub b: u8,
}

impl Rgb {
    pub fn new(r: u8, g: u8, b: u8) -> (c: Self)
        ensures
            c == (Rgb { r, g, b }),
    {
        Self { r, g, b }
    }

    pub fn default() -> (c: Self)
        ensures
            c == (Rgb { r: 0u8, g: 0u8, b: 0u8 }),
    {
        Self::new(0, 0, 0)
    }

    pub fn to_interim(&self) -> (c: InterimRGB)
        ensures
            c == (InterimRGB { r: self.r as u16, g: self.g as u16, b: self.b as u16 }),
    {
        InterimRGB::new(self.r as u16, self.g as u16, self.b as u16)
    }
}

/// What a channel value clamped into one byte is.
pub open spec fn spec_u16_to_u8(item: u16) -> u8 {
    if item > 255 {
        255u8
    } else {
        item as u8
    }
}

/// Clamp a widened channel value back into one byte.
pub fn u16_to_u8(item: u16) -> (r: u8)
    ensures
        r == spec_u16_to_u8(item),
{
    if item > 255 {
        255
    } else {
        item as u8
    }
}

/// An RGB color widened to sixteen bits per channel, so that compositing
/// sums and products stay representable.
#[derive(Debug, Clone, Copy, PartialEq, Eq, Structural)]
pub struct InterimRGB {
    pub r: u16,
    pub g: u16,
    pub b: u16,
}

impl InterimRGB {
    pub fn new(r: u16, g: u16, b: u16) -> (c: Self)
        ensures
            c == (InterimRGB { r, g, b }),
    {
        Self { r, g, b }
    }

    pub fn to_rgb(&self) -> (c: Rgb)
        ensures
            c.r == spec_u16_to_u8(self.r),
            c.g == spec_u16_to_u8(self.g),
            c.b == spec_u16_to_u8(self.b),
    {
        Rgb::new(u16_to_u8(self.r), u16_to_u8(self.g), u16_to_u8(self.b))
    }

    pub fn lightness(&self) -> (l: u16)
        requires
            self.r + self.g + self.b <= u16::MAX,
        ensures
            l == (self.r + self.g + self.b) / 3,
    {
        (self.r + self.g + self.b) / 3
    }

    pub fn add(self, rhs: InterimRGB) -> (c: Self)
        requires
            self.r + rhs.r <= u16::MAX,
            self.g + rhs.g <= u16::MAX,
            self.b + rhs.b <= u16::MAX,
        ensures
            c.r == self.r + rhs.r,
            c.g == self.g + rhs.g,
            c.b == self.b + rhs.b,
    {
        InterimRGB::new(self.r + rhs.r, self.g + rhs.g, self.b + rhs.b)
    }

    pub fn mul(self, rhs: u16) -> (c: Self)
        requires
            self.r * rhs <= u16::MAX,
            self.g * rhs <= u16::MAX,
            self.b * rhs <= u16::MAX,
        ensures
            c.r == self.r * rhs,
            c.g == self.g * rhs,
            c.b == self.b * rhs,
    {
        InterimRGB::new(self.r * rhs, self.g * rhs, self.b * rhs)
    }

    pub fn div(self, rhs: u16) -> (c: Self)
        requires
            rhs != 0,
        ensures
            c.r == self.r / rhs,
            c.g == self.g / rhs,
            c.b == self.b / rhs,
    {
        InterimRGB::new(self.r / rhs, self.g / rhs, self.b / rhs)
    }
}

/// An RGBA color: an RGB color and an alpha byte, 255 fully opaque.
#[derive(Debug, Clone, Copy, PartialEq, Eq, Structural)]
pub struct Rgba {
    pub rgb: Rgb,
    pub alpha: u8,
}

/// The alpha of compositing `fg` over `bg`.
pub open spec fn spec_composite_alpha(fg: Rgba, bg: Rgba) -> int {
    fg.alpha + (bg.alpha * (255 - fg.alpha)) / 255
}

/// One channel of compositing `fg` over `bg`: the alpha-weighted average,
/// clamped into one byte.
pub open spec fn spec_composite_channel(f: u8, b: u8, fg: Rgba, bg: Rgba) -> u8 {
    let part = (bg.alpha * (255 - fg.alpha)) / 255;
    let a = spec_composite_alpha(fg, bg);
    if a == 0 {
        0u8
    } else {
        spec_u16_to_u8(((f * fg.alpha + b * part) / a) as u16)
    }
}

/// What compositing `fg` over `bg` yields.
pub open spec fn spec_compositing(fg: Rgba, bg: Rgba) -> Rgba {
    Rgba {
        rgb: Rgb {
            r: spec_composite_channel(fg.rgb.r, bg.rgb.r, fg, bg),
            g: spec_composite_channel(fg.rgb.g, bg.rgb.g, fg, bg),
            b: spec_composite_channel(fg.rgb.b, bg.rgb.b, fg, bg),
        },
        alpha: spec_u16_to_u8(spec_composite_alpha(fg, bg) as u16),
    }
}

impl Rgba {
    pub fn new(r: u8, g: u8, b: u8, alpha: u8) -> (c: Self)
        ensures
            c == (Rgba { rgb: Rgb { r, g, b }, alpha }),
    {
        Self { rgb: Rgb::new(r, g, b), alpha }
    }

    pub fn default() -> (c: Self)
        ensures
            c == (Rgba { rgb: Rgb { r: 0u8, g: 0u8, b: 0u8 }, alpha: 255u8 }),
    {
        Self { rgb: Rgb::default(), alpha: 255 }
    }

    /// The four channels as a tuple.
    pub fn rgba(&self) -> (t: (u8, u8, u8, u8))
        ensures
            t == (self.rgb.r, self.rgb.g, self.rgb.b, self.alpha),
    {
        (self.rgb.r, self.rgb.g, self.rgb.b, self.alpha)
    }

    /// Composite `self` over the background `bg` (source-over).
    pub fn compositing(&self, bg: &Rgba) -> (c: Self)
        ensures
            c == spec_compositing(*self, *bg),
    {
        let fg = self;

        let fg_alpha = fg.alpha as u16;
        let bg_alpha = bg.alpha as u16;

        let fg_rgb = fg.rgb.to_interim();
        let bg_rgb = bg.rgb.to_interim();

        assert(bg_alpha * (255 - fg_alpha) <= 255 * 255) by (nonlinear_arith)
            requires
                bg_alpha <= 255,
                fg_alpha <= 255,
        ;
        let part: u16 = bg_alpha * (255 - fg_alpha) / 255;
        assert(part <= 255 - fg_alpha) by (nonlinear_arith)
            requires
                bg_alpha <= 255,
                fg_alpha <= 255,
                part == bg_alpha * (255 - fg_alpha) / 255,
        ;
        let alpha: u16 = fg_alpha + part;

        let rgb = if alpha == 0 {
            Rgb::new(0, 0, 0)
        } else {
            assert(fg_rgb.r * fg_alpha + bg_rgb.r * part <= 255 * 255
                && fg_rgb.g * fg_alpha + bg_rgb.g * part <= 255 * 255
                && fg_rgb.b * fg_alpha + bg_rgb.b * part <= 255 * 255) by (nonlinear_arith)
                requires
                    fg_rgb.r <= 255,
                    fg_rgb.g <= 255,
                    fg_rgb.b <= 255,
                    bg_rgb.r <= 255,
                    bg_rgb.g <= 255,
                    bg_rgb.b <= 255,
                    fg_alpha + part <= 255,
            ;
            let interim_rgb: InterimRGB = (fg_rgb.mul(fg_alpha).add(bg_rgb.mul(part))).div(alpha);
            interim_rgb.to_rgb()
        };

        Self { rgb, alpha: u16_to_u8(alpha) }
    }

    /// Brightness of the color, scaled by its alpha.
    pub fn lightness(&self) -> (l: u8)
        ensures
            l == spec_u16_to_u8(
                (((self.rgb.r + self.rgb.g + self.rgb.b) / 3) * self.alpha / 255) as u16,
            ),
    {
        let light: u16 = self.rgb.to_interim().lightness();
        assert(light * self.alpha <= 255 * 255) by (nonlinear_arith)
            requires
                light <= 255,
                self.alpha <= 255,
        ;
        u16_to_u8(light * self.alpha as u16 / 255)
    }
}

} // verus!
