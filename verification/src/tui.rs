//! Terminal rendering data: a row-major canvas grid, ANSI escape text for
//! half-block pixels, and the control sequences that clear drawn lines.

use vstd::prelude::*;
use vstd::string::StringExecFns;
use crate::numtext::{spec_dec, u64_to_dec};
use crate::unit;

pub use crate::color::Rgba;

verus! {

/// A wrapped signed number; `add` is the sum.
#[derive(Debug, Clone, Copy, PartialEq, Eq, Structural)]
pub struct X {
    pub r: i64,
}

impl X {
    pub fn new(r: i64) -> (x: Self)
        ensures
            x == (X { r }),
    {
        Self { r }
    }

    pub fn add(self, b: Self) -> (x: Self)
        requires
            i64::MIN <= self.r + b.r <= i64::MAX,
        ensures
            x.r == self.r + b.r,
    {
        Self { r: self.r + b.r }
    }
}

/// A drawing surface: rows of colors, row-major, `size.y` rows of `size.x`
/// cells each.
#[derive(Debug, Clone)]
pub struct Canvas {
    pub data: Vec<Vec<Rgba>>,
    pub size: unit::Position,
}

/// The rows of the grid as a sequence of sequences of colors.
pub open spec fn spec_grid(c: Canvas) -> Seq<Seq<Rgba>> {
    Seq::new(c.data@.len(), |j: int| c.data@[j]@)
}

/// The grid has exactly `size.y` rows of `size.x` cells.
pub open spec fn spec_grid_wf(c: Canvas) -> bool {
    &&& c.size.x >= 0
    &&& c.size.y >= 0
    &&& c.data@.len() == c.size.y
    &&& forall|j: int| 0 <= j < c.data@.len() ==> (#[trigger] c.data@[j])@.len() == c.size.x
}

impl Canvas {
    pub fn new(size: unit::Position) -> (c: Self)
        requires
            0 <= size.x <= u32::MAX,
            0 <= size.y <= u32::MAX,
        ensures
            c.size == size,
            spec_grid_wf(c),
            forall|j: int, i: int|
                0 <= j < size.y && 0 <= i < size.x ==> #[trigger] c.data@[j]@[i]
                    == (Rgba { rgb: crate::color::Rgb { r: 0u8, g: 0u8, b: 0u8 }, alpha: 255u8 }),
    {
        let mut data: Vec<Vec<Rgba>> = Vec::new();
        let mut j: i64 = 0;
        while j < size.y
            invariant
                0 <= j <= size.y,
                size.x >= 0,
                data@.len() == j,
                forall|jj: int|
                    0 <= jj < j ==> (#[trigger] data@[jj])@.len() == size.x,
                forall|jj: int, i: int|
                    0 <= jj < j && 0 <= i < size.x ==> #[trigger] data@[jj]@[i]
                        == (Rgba {
                        rgb: crate::color::Rgb { r: 0u8, g: 0u8, b: 0u8 },
                        alpha: 255u8,
                    }),
            decreases size.y - j,
        {
            let mut row: Vec<Rgba> = Vec::new();
            let mut i: i64 = 0;
            while i < size.x
                invariant
                    0 <= i <= size.x,
                    row@.len() == i,
                    forall|ii: int|
                        0 <= ii < i ==> row@[ii] == (Rgba {
                            rgb: crate::color::Rgb { r: 0u8, g: 0u8, b: 0u8 },
                            alpha: 255u8,
                        }),
                decreases size.x - i,
            {
                row.push(Rgba::default());
                i = i + 1;
            }
            data.push(row);
            j = j + 1;
        }
        Self { data, size }
    }
}

/// The escape text that paints `upper` over `lower` as one half-block cell.
pub open spec fn spec_pixel(upper: Rgba, lower: Rgba) -> Seq<char> {
    "\x1b[38;2;"@ + spec_dec(upper.rgb.r as int) + ";"@ + spec_dec(upper.rgb.g as int) + ";"@
        + spec_dec(upper.rgb.b as int) + "m\x1b[48;2;"@ + spec_dec(lower.rgb.r as int) + ";"@
        + spec_dec(lower.rgb.g as int) + ";"@ + spec_dec(lower.rgb.b as int) + "m\u{2580}\x1b[0m"@
}

/// One terminal cell showing two pixels: `upper` as the foreground of a
/// half block, `lower` as the background.
pub fn pixel(upper: Rgba, lower: Rgba) -> (s: String)
    ensures
        s@ == spec_pixel(upper, lower),
{
    let (ur, ug, ub, _) = upper.rgba();
    let (lr, lg, lb, _) = lower.rgba();
    let mut s = "\x1b[38;2;".to_owned();
    s.append(u64_to_dec(ur as u64).as_str());
    s.append(";");
    s.append(u64_to_dec(ug as u64).as_str());
    s.append(";");
    s.append(u64_to_dec(ub as u64).as_str());
    s.append("m\x1b[48;2;");
    s.append(u64_to_dec(lr as u64).as_str());
    s.append(";");
    s.append(u64_to_dec(lg as u64).as_str());
    s.append(";");
    s.append(u64_to_dec(lb as u64).as_str());
    s.append("m\u{2580}\x1b[0m");
    s
}

/// The escape text for a bottom row cell with only an upper pixel.
pub open spec fn spec_pixel_bottom(upper: Rgba) -> Seq<char> {
    "\x1b[38;2;"@ + spec_dec(upper.rgb.r as int) + ";"@ + spec_dec(upper.rgb.g as int) + ";"@
        + spec_dec(upper.rgb.b as int) + "m\u{2580}\x1b[0m"@
}

/// One terminal cell on the bottom row, with no background pixel.
pub fn pixel_bottom(upper: Rgba) -> (s: String)
    ensures
        s@ == spec_pixel_bottom(upper),
{
    let (ur, ug, ub, _) = upper.rgba();
    let mut s = "\x1b[38;2;".to_owned();
    s.append(u64_to_dec(ur as u64).as_str());
    s.append(";");
    s.append(u64_to_dec(ug as u64).as_str());
    s.append(";");
    s.append(u64_to_dec(ub as u64).as_str());
    s.append("m\u{2580}\x1b[0m");
    s
}

/// `s` repeated `k` times.
pub open spec fn spec_repeat(s: Seq<char>, k: int) -> Seq<char>
    decreases k,
{
    if k <= 0 {
        Seq::empty()
    } else {
        spec_repeat(s, k - 1) + s
    }
}

/// The control text that moves to the start of the line `n` lines up.
pub open spec fn spec_cursor_prev(n: int) -> Seq<char> {
    "\x1b["@ + spec_dec(n) + "F"@
}

/// The control text `clear_up` emits: move `line_num` lines up, blank each
/// of them, and move back up.
pub open spec fn spec_clear_up(line_num: int) -> Seq<char> {
    if line_num == 0 {
        spec_repeat("\x1b[2K\n"@, line_num)
    } else {
        spec_cursor_prev(line_num) + spec_repeat("\x1b[2K\n"@, line_num) + spec_cursor_prev(
            line_num,
        )
    }
}

/// The control text `clear_down` emits: blank `line_num` lines downward,
/// then move back up.
pub open spec fn spec_clear_down(line_num: int) -> Seq<char> {
    if line_num == 0 {
        spec_repeat("\x1b[2K\n"@, line_num)
    } else {
        spec_repeat("\x1b[2K\n"@, line_num) + spec_cursor_prev(line_num)
    }
}

fn cursor_prev(n: i64) -> (s: String)
    requires
        n >= 0,
    ensures
        s@ == spec_cursor_prev(n as int),
{
    let mut s = "\x1b[".to_owned();
    s.append(u64_to_dec(n as u64).as_str());
    s.append("F");
    s
}

fn blank_lines(line_num: i64) -> (s: String)
    requires
        line_num >= 0,
    ensures
        s@ == spec_repeat("\x1b[2K\n"@, line_num as int),
{
    let mut s = String::new();
    assert(s@ =~= spec_repeat("\x1b[2K\n"@, 0));
    let mut k: i64 = 0;
    while k < line_num
        invariant
            0 <= k <= line_num,
            s@ == spec_repeat("\x1b[2K\n"@, k as int),
        decreases line_num - k,
    {
        s.append("\x1b[2K\n");
        k = k + 1;
    }
    s
}

/// The text printed to blank the `line_num` lines above the cursor and
/// return to where drawing started.
pub fn clear_up_codes(line_num: i64) -> (s: String)
    requires
        line_num >= 0,
    ensures
        s@ == spec_clear_up(line_num as int),
{
    if line_num != 0 {
        let mut s = cursor_prev(line_num);
        s.append(blank_lines(line_num).as_str());
        s.append(cursor_prev(line_num).as_str());
        s
    } else {
        blank_lines(line_num)
    }
}

/// The text printed to blank `line_num` lines below the cursor and move
/// back up to it.
pub fn clear_down_codes(line_num: i64) -> (s: String)
    requires
        line_num >= 0,
    ensures
        s@ == spec_clear_down(line_num as int),
{
    if line_num != 0 {
        let mut s = blank_lines(line_num);
        s.append(cursor_prev(line_num).as_str());
        s
    } else {
        blank_lines(line_num)
    }
}

} // verus!
