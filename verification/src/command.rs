//! The textual drawing command language: hex colors, cursor motion
//! (`h j k l` with counts), absolute moves (`<n>x<m>y`), painting strokes,
//! and counting the lines of a message.

use vstd::prelude::*;
use vstd::string::StrSliceExecFns;
use crate::color::Rgba;
use crate::tui;
use crate::unit;

verus! {

/// `c` is a decimal digit.
pub open spec fn spec_is_digit(c: char) -> bool {
    '0' as u32 <= c as u32 <= '9' as u32
}

/// `c` is a hexadecimal digit.
pub open spec fn spec_is_hex_digit(c: char) -> bool {
    spec_is_digit(c) || ('a' as u32 <= c as u32 <= 'f' as u32) || ('A' as u32 <= c as u32
        <= 'F' as u32)
}

/// The value of a hexadecimal digit.
pub open spec fn spec_hex_val(c: char) -> int {
    if spec_is_digit(c) {
        c as u32 - '0' as u32
    } else if 'a' as u32 <= c as u32 <= 'f' as u32 {
        c as u32 - 'a' as u32 + 10
    } else {
        c as u32 - 'A' as u32 + 10
    }
}

/// The byte written by two hexadecimal digits.
pub open spec fn spec_hex_byte(hi: char, lo: char) -> int {
    16 * spec_hex_val(hi) + spec_hex_val(lo)
}

fn hex_val(c: char) -> (v: u8)
    requires
        spec_is_hex_digit(c),
    ensures
        v as int == spec_hex_val(c),
        v < 16,
{
    let u = c as u32;
    if u >= 97 {
        (u - 97 + 10) as u8
    } else if u >= 65 {
        (u - 65 + 10) as u8
    } else {
        (u - 48) as u8
    }
}

/// A color command is `#` followed by exactly six hexadecimal digits.
pub open spec fn spec_as_rgb_ok(cs: Seq<char>) -> bool {
    &&& cs.len() == 7
    &&& spec_is_hex_digit(cs[1])
    &&& spec_is_hex_digit(cs[2])
    &&& spec_is_hex_digit(cs[3])
    &&& spec_is_hex_digit(cs[4])
    &&& spec_is_hex_digit(cs[5])
    &&& spec_is_hex_digit(cs[6])
}

/// Read a `#rrggbb` command as a fully opaque color.
pub fn as_rgb(cmd: String) -> (c: tui::Rgba)
    requires
        spec_as_rgb_ok(cmd@),
    ensures
        c.rgb.r == spec_hex_byte(cmd@[1], cmd@[2]),
        c.rgb.g == spec_hex_byte(cmd@[3], cmd@[4]),
        c.rgb.b == spec_hex_byte(cmd@[5], cmd@[6]),
        c.alpha == 255,
{
    let s = cmd.as_str();
    let red = 16 * hex_val(s.get_char(1)) + hex_val(s.get_char(2));
    let green = 16 * hex_val(s.get_char(3)) + hex_val(s.get_char(4));
    let blue = 16 * hex_val(s.get_char(5)) + hex_val(s.get_char(6));
    tui::Rgba::new(red, green, blue, 255)
}

/// The count applied by a motion letter: an accumulated count, or one step.
pub open spec fn spec_count(step: int) -> int {
    if step == 0 {
        1
    } else {
        step
    }
}

/// All three components of a motion state fit in `i64`.
pub open spec fn spec_in_i64(st: (int, int, int)) -> bool {
    &&& i64::MIN <= st.0 <= i64::MAX
    &&& i64::MIN <= st.1 <= i64::MAX
    &&& i64::MIN <= st.2 <= i64::MAX
}

/// One character of a relative motion command acting on `(x, y, count)`.
pub open spec fn spec_as_pos_step(st: (int, int, int), c: char) -> (int, int, int) {
    if c == 'h' {
        (st.0 - spec_count(st.2), st.1, st.2)
    } else if c == 'j' {
        (st.0, st.1 + spec_count(st.2), st.2)
    } else if c == 'k' {
        (st.0, st.1 - spec_count(st.2), st.2)
    } else if c == 'l' {
        (st.0 + spec_count(st.2), st.1, st.2)
    } else if spec_is_digit(c) {
        (st.0, st.1, st.2 * 10 + (c as u32 - '0' as u32))
    } else {
        st
    }
}

/// The motion state after the whole command.
pub open spec fn spec_as_pos_run(st: (int, int, int), cs: Seq<char>) -> (int, int, int)
    decreases cs.len(),
{
    if cs.len() == 0 {
        st
    } else {
        spec_as_pos_step(spec_as_pos_run(st, cs.drop_last()), cs.last())
    }
}

/// No intermediate state of the relative motion command overflows `i64`.
pub open spec fn spec_as_pos_fits(st: (int, int, int), cs: Seq<char>) -> bool
    decreases cs.len(),
{
    if cs.len() == 0 {
        true
    } else {
        spec_as_pos_fits(st, cs.drop_last()) && spec_in_i64(spec_as_pos_run(st, cs))
    }
}

proof fn lemma_as_pos_fits_prefix(st: (int, int, int), cs: Seq<char>, k: int)
    requires
        spec_as_pos_fits(st, cs),
        0 <= k <= cs.len(),
    ensures
        spec_as_pos_fits(st, cs.take(k)),
    decreases cs.len(),
{
    if k == cs.len() {
        assert(cs.take(k) =~= cs);
    } else {
        assert(cs.drop_last().take(k) =~= cs.take(k));
        lemma_as_pos_fits_prefix(st, cs.drop_last(), k);
    }
}

/// Read a relative motion command (`h j k l`, each optionally preceded by a
/// decimal count) as the position it reaches from the origin.
pub fn as_pos(cmd: String) -> (p: unit::Position)
    requires
        spec_as_pos_fits((0int, 0int, 0int), cmd@),
    ensures
        p.x == spec_as_pos_run((0int, 0int, 0int), cmd@).0,
        p.y == spec_as_pos_run((0int, 0int, 0int), cmd@).1,
{
    let s = cmd.as_str();
    let len: usize = s.unicode_len();
    let mut x: i64 = 0;
    let mut y: i64 = 0;
    let mut step: i64 = 0;
    let mut i: usize = 0;
    assert(cmd@.take(0) =~= Seq::<char>::empty());
    while i < len
        invariant
            0 <= i <= len,
            len == cmd@.len(),
            s@ == cmd@,
            spec_as_pos_fits((0int, 0int, 0int), cmd@),
            step >= 0,
            (x as int, y as int, step as int) == spec_as_pos_run(
                (0int, 0int, 0int),
                cmd@.take(i as int),
            ),
        decreases len - i,
    {
        proof {
            lemma_as_pos_fits_prefix((0int, 0int, 0int), cmd@, i + 1);
            assert(cmd@.take(i + 1).drop_last() =~= cmd@.take(i as int));
            assert(cmd@.take(i + 1).last() == cmd@[i as int]);
        }
        let c = s.get_char(i);
        let delta: i64 = if step == 0 {
            1
        } else {
            step
        };
        if c == 'h' {
            x = x - delta;
        } else if c == 'j' {
            y = y + delta;
        } else if c == 'k' {
            y = y - delta;
        } else if c == 'l' {
            x = x + delta;
        } else {
            let u = c as u32;
            if 48 <= u && u <= 57 {
                step = step * 10 + ((u - 48) as i64);
            }
        }
        i = i + 1;
    }
    assert(cmd@.take(len as int) =~= cmd@);
    unit::Position::new(x, y)
}

/// One character of an absolute motion command: digits build a count, `x`
/// and `y` assign it to a coordinate and clear it.
pub open spec fn spec_move_to_step(st: (int, int, int), c: char) -> (int, int, int) {
    if c == 'x' {
        (st.2, st.1, 0)
    } else if c == 'y' {
        (st.0, st.2, 0)
    } else if spec_is_digit(c) {
        (st.0, st.1, st.2 * 10 + (c as u32 - '0' as u32))
    } else {
        st
    }
}

/// The absolute motion state after the whole command.
pub open spec fn spec_move_to_run(st: (int, int, int), cs: Seq<char>) -> (int, int, int)
    decreases cs.len(),
{
    if cs.len() == 0 {
        st
    } else {
        spec_move_to_step(spec_move_to_run(st, cs.drop_last()), cs.last())
    }
}

/// No intermediate state of the absolute motion command overflows `i64`.
pub open spec fn spec_move_to_fits(st: (int, int, int), cs: Seq<char>) -> bool
    decreases cs.len(),
{
    if cs.len() == 0 {
        true
    } else {
        spec_move_to_fits(st, cs.drop_last()) && spec_in_i64(spec_move_to_run(st, cs))
    }
}

proof fn lemma_move_to_fits_prefix(st: (int, int, int), cs: Seq<char>, k: int)
    requires
        spec_move_to_fits(st, cs),
        0 <= k <= cs.len(),
    ensures
        spec_move_to_fits(st, cs.take(k)),
    decreases cs.len(),
{
    if k == cs.len() {
        assert(cs.take(k) =~= cs);
    } else {
        assert(cs.drop_last().take(k) =~= cs.take(k));
        lemma_move_to_fits_prefix(st, cs.drop_last(), k);
    }
}

/// Read an absolute motion command (`<n>x<m>y`) starting from `pos`.
pub fn move_to(pos: unit::Position, cmd: String) -> (p: unit::Position)
    requires
        spec_move_to_fits((pos.x as int, pos.y as int, 0int), cmd@),
    ensures
        p.x == spec_move_to_run((pos.x as int, pos.y as int, 0int), cmd@).0,
        p.y == spec_move_to_run((pos.x as int, pos.y as int, 0int), cmd@).1,
{
    let s = cmd.as_str();
    let len: usize = s.unicode_len();
    let ghost st0 = (pos.x as int, pos.y as int, 0int);
    let mut x: i64 = pos.x;
    let mut y: i64 = pos.y;
    let mut step: i64 = 0;
    let mut i: usize = 0;
    assert(cmd@.take(0) =~= Seq::<char>::empty());
    while i < len
        invariant
            0 <= i <= len,
            len == cmd@.len(),
            s@ == cmd@,
            st0 == (pos.x as int, pos.y as int, 0int),
            spec_move_to_fits(st0, cmd@),
            step >= 0,
            (x as int, y as int, step as int) == spec_move_to_run(st0, cmd@.take(i as int)),
        decreases len - i,
    {
        proof {
            lemma_move_to_fits_prefix(st0, cmd@, i + 1);
            assert(cmd@.take(i + 1).drop_last() =~= cmd@.take(i as int));
            assert(cmd@.take(i + 1).last() == cmd@[i as int]);
        }
        let c = s.get_char(i);
        if c == 'x' {
            x = step;
            step = 0;
        } else if c == 'y' {
            y = step;
            step = 0;
        } else {
            let u = c as u32;
            if 48 <= u && u <= 57 {
                step = step * 10 + ((u - 48) as i64);
            }
        }
        i = i + 1;
    }
    assert(cmd@.take(len as int) =~= cmd@);
    unit::Position::new(x, y)
}

/// The abstract state of a drawing stroke: the grid of colors, the pen
/// position, the current direction, and the accumulated count.
pub struct DrawState {
    pub grid: Seq<Seq<Rgba>>,
    pub x: int,
    pub y: int,
    pub mx: int,
    pub my: int,
    pub step: int,
}

/// Painting one cell: inside the `w` by `h` grid the cell changes color,
/// outside nothing happens.
pub open spec fn spec_paint(g: Seq<Seq<Rgba>>, w: int, h: int, x: int, y: int, color: Rgba) -> Seq<
    Seq<Rgba>,
> {
    if 0 <= x < w && 0 <= y < h {
        g.update(y, g[y].update(x, color))
    } else {
        g
    }
}

/// Moving and painting `n` times in the current direction.
pub open spec fn spec_stroke(st: DrawState, w: int, h: int, color: Rgba, n: nat) -> DrawState
    decreases n,
{
    if n == 0 {
        st
    } else {
        let st1 = spec_stroke(st, w, h, color, (n - 1) as nat);
        let x2 = st1.x + st1.mx;
        let y2 = st1.y + st1.my;
        DrawState { grid: spec_paint(st1.grid, w, h, x2, y2, color), x: x2, y: y2, ..st1 }
    }
}

/// How many cells a motion letter paints: the accumulated count, or one.
pub open spec fn spec_reps(step: int) -> nat {
    if step == 0 {
        1nat
    } else if step > 0 {
        step as nat
    } else {
        0nat
    }
}

/// One character of a drawing command.
pub open spec fn spec_draw_char(st: DrawState, w: int, h: int, color: Rgba, c: char) -> DrawState {
    if c == 'h' || c == 'j' || c == 'k' || c == 'l' {
        let mx = if c == 'h' {
            -1int
        } else if c == 'l' {
            1int
        } else {
            0int
        };
        let my = if c == 'j' {
            1int
        } else if c == 'k' {
            -1int
        } else {
            0int
        };
        let st1 = DrawState { mx, my, ..st };
        let st2 = spec_stroke(st1, w, h, color, spec_reps(st1.step));
        DrawState { step: 0, ..st2 }
    } else if c == 'd' {
        DrawState { grid: spec_paint(st.grid, w, h, st.x, st.y, color), ..st }
    } else if spec_is_digit(c) {
        DrawState { step: st.step * 10 + (c as u32 - '0' as u32), ..st }
    } else {
        st
    }
}

/// The drawing state after the whole command.
pub open spec fn spec_draw_run(st: DrawState, w: int, h: int, color: Rgba, cs: Seq<char>) -> DrawState
    decreases cs.len(),
{
    if cs.len() == 0 {
        st
    } else {
        spec_draw_char(spec_draw_run(st, w, h, color, cs.drop_last()), w, h, color, cs.last())
    }
}

/// The pen position and count of a drawing state fit in `i64`.
pub open spec fn spec_draw_in_i64(st: DrawState) -> bool {
    &&& i64::MIN <= st.x <= i64::MAX
    &&& i64::MIN <= st.y <= i64::MAX
    &&& i64::MIN <= st.step <= i64::MAX
}

/// No intermediate state of the drawing command overflows `i64`.
pub open spec fn spec_draw_fits(st: DrawState, w: int, h: int, color: Rgba, cs: Seq<char>) -> bool
    decreases cs.len(),
{
    if cs.len() == 0 {
        true
    } else {
        spec_draw_fits(st, w, h, color, cs.drop_last()) && spec_draw_in_i64(
            spec_draw_run(st, w, h, color, cs),
        )
    }
}

proof fn lemma_draw_fits_prefix(st: DrawState, w: int, h: int, color: Rgba, cs: Seq<char>, k: int)
    requires
        spec_draw_fits(st, w, h, color, cs),
        0 <= k <= cs.len(),
    ensures
        spec_draw_fits(st, w, h, color, cs.take(k)),
    decreases cs.len(),
{
    if k == cs.len() {
        assert(cs.take(k) =~= cs);
    } else {
        assert(cs.drop_last().take(k) =~= cs.take(k));
        lemma_draw_fits_prefix(st, w, h, color, cs.drop_last(), k);
    }
}

/// A stroke moves the pen linearly and leaves direction and count alone.
proof fn lemma_stroke_frame(st: DrawState, w: int, h: int, color: Rgba, n: nat)
    ensures
        spec_stroke(st, w, h, color, n).x == st.x + n * st.mx,
        spec_stroke(st, w, h, color, n).y == st.y + n * st.my,
        spec_stroke(st, w, h, color, n).mx == st.mx,
        spec_stroke(st, w, h, color, n).my == st.my,
        spec_stroke(st, w, h, color, n).step == st.step,
    decreases n,
{
    if n == 0 {
    } else {
        lemma_stroke_frame(st, w, h, color, (n - 1) as nat);
        assert(n * st.mx == (n - 1) * st.mx + st.mx) by (nonlinear_arith);
        assert(n * st.my == (n - 1) * st.my + st.my) by (nonlinear_arith);
    }
}

/// A grid keeps its shape under painting.
proof fn lemma_paint_shape(g: Seq<Seq<Rgba>>, w: int, h: int, x: int, y: int, color: Rgba)
    requires
        g.len() == h,
        forall|j: int| 0 <= j < h ==> (#[trigger] g[j]).len() == w,
    ensures
        spec_paint(g, w, h, x, y, color).len() == h,
        forall|j: int| 0 <= j < h ==> (#[trigger] spec_paint(g, w, h, x, y, color)[j]).len() == w,
{
}

/// Paint one cell if it lies on the canvas; off the canvas this is a no-op.
fn paint_cell(canvas: &mut tui::Canvas, x: i64, y: i64, color: Rgba)
    requires
        tui::spec_grid_wf(*old(canvas)),
    ensures
        final(canvas).size == old(canvas).size,
        tui::spec_grid_wf(*final(canvas)),
        tui::spec_grid(*final(canvas)) == spec_paint(
            tui::spec_grid(*old(canvas)),
            old(canvas).size.x as int,
            old(canvas).size.y as int,
            x as int,
            y as int,
            color,
        ),
{
    let ghost g = tui::spec_grid(*canvas);
    let ghost w = canvas.size.x as int;
    let ghost h = canvas.size.y as int;
    if x < canvas.size.x && 0 <= x && y < canvas.size.y && 0 <= y {
        let rows: usize = canvas.data.len();
        assert(rows == canvas.size.y);
        let yu: usize = y as usize;
        let cols: usize = canvas.data[yu].len();
        assert(cols == canvas.size.x);
        let xu: usize = x as usize;
        canvas.data[yu][xu] = color;
        assert(tui::spec_grid(*canvas) =~= spec_paint(g, w, h, x as int, y as int, color));
    } else {
        assert(tui::spec_grid(*canvas) =~= spec_paint(g, w, h, x as int, y as int, color));
    }
}

/// Paint cells along the command `cmd`, starting at `cursor` with pen
/// direction reset; the grid, the pen, and the result follow the abstract
/// drawing semantics.
pub fn draw(canvas: &mut tui::Canvas, cursor: unit::Position, color: tui::Rgba, cmd: String) -> (p:
    unit::Position)
    requires
        tui::spec_grid_wf(*old(canvas)),
        spec_draw_fits(
            (DrawState {
                grid: tui::spec_grid(*old(canvas)),
                x: cursor.x as int,
                y: cursor.y as int,
                mx: 0,
                my: 0,
                step: 0,
            }),
            old(canvas).size.x as int,
            old(canvas).size.y as int,
            color,
            cmd@,
        ),
    ensures
        final(canvas).size == old(canvas).size,
        tui::spec_grid_wf(*final(canvas)),
        ({
            let end = spec_draw_run(
                (DrawState {
                    grid: tui::spec_grid(*old(canvas)),
                    x: cursor.x as int,
                    y: cursor.y as int,
                    mx: 0,
                    my: 0,
                    step: 0,
                }),
                old(canvas).size.x as int,
                old(canvas).size.y as int,
                color,
                cmd@,
            );
            tui::spec_grid(*final(canvas)) == end.grid && p.x == end.x && p.y == end.y
        }),
{
    let ghost st0 = DrawState {
        grid: tui::spec_grid(*canvas),
        x: cursor.x as int,
        y: cursor.y as int,
        mx: 0,
        my: 0,
        step: 0,
    };
    let ghost w = canvas.size.x as int;
    let ghost h = canvas.size.y as int;
    let s = cmd.as_str();
    let len: usize = s.unicode_len();
    let mut x: i64 = cursor.x;
    let mut y: i64 = cursor.y;
    let mut move_x: i64 = 0;
    let mut move_y: i64 = 0;
    let mut step: i64 = 0;
    let mut i: usize = 0;
    assert(cmd@.take(0) =~= Seq::<char>::empty());
    while i < len
        invariant
            0 <= i <= len,
            len == cmd@.len(),
            s@ == cmd@,
            spec_draw_fits(st0, w, h, color, cmd@),
            st0 == (DrawState {
                grid: st0.grid,
                x: cursor.x as int,
                y: cursor.y as int,
                mx: 0,
                my: 0,
                step: 0,
            }),
            tui::spec_grid_wf(*canvas),
            canvas.size == old(canvas).size,
            w == canvas.size.x as int,
            h == canvas.size.y as int,
            st0.grid == tui::spec_grid(*old(canvas)),
            -1 <= move_x <= 1,
            -1 <= move_y <= 1,
            step >= 0,
            ({
                let cur = spec_draw_run(st0, w, h, color, cmd@.take(i as int));
                tui::spec_grid(*canvas) == cur.grid && x == cur.x && y == cur.y && move_x == cur.mx
                    && move_y == cur.my && step == cur.step
            }),
        decreases len - i,
    {
        proof {
            lemma_draw_fits_prefix(st0, w, h, color, cmd@, i + 1);
            assert(cmd@.take(i + 1).drop_last() =~= cmd@.take(i as int));
            assert(cmd@.take(i + 1).last() == cmd@[i as int]);
        }
        let ghost cur = spec_draw_run(st0, w, h, color, cmd@.take(i as int));
        let ghost next = spec_draw_run(st0, w, h, color, cmd@.take(i + 1));
        let c = s.get_char(i);
        if c == 'h' || c == 'j' || c == 'k' || c == 'l' {
            if c == 'h' {
                move_x = -1;
                move_y = 0;
            } else if c == 'j' {
                move_x = 0;
                move_y = 1;
            } else if c == 'k' {
                move_x = 0;
                move_y = -1;
            } else {
                move_x = 1;
                move_y = 0;
            }
            let ghost st1 = DrawState { mx: move_x as int, my: move_y as int, ..cur };
            let ghost n = spec_reps(st1.step);
            proof {
                lemma_stroke_frame(st1, w, h, color, n);
            }
            let reps: i64 = if step == 0 {
                1
            } else {
                step
            };
            assert(n == reps);
            let mut q: i64 = 0;
            while q < reps
                invariant
                    0 <= q <= reps,
                    -1 <= move_x <= 1,
                    -1 <= move_y <= 1,
                    n == reps,
                    tui::spec_grid_wf(*canvas),
                    canvas.size == old(canvas).size,
                    w == canvas.size.x as int,
                    h == canvas.size.y as int,
                    spec_draw_in_i64(spec_stroke(st1, w, h, color, n)),
                    st1.mx == move_x as int,
                    st1.my == move_y as int,
                    i64::MIN <= st1.x <= i64::MAX,
                    i64::MIN <= st1.y <= i64::MAX,
                    ({
                        let mid = spec_stroke(st1, w, h, color, q as nat);
                        tui::spec_grid(*canvas) == mid.grid && x == mid.x && y == mid.y
                    }),
                decreases reps - q,
            {
                proof {
                    lemma_stroke_frame(st1, w, h, color, q as nat);
                    lemma_stroke_frame(st1, w, h, color, (q + 1) as nat);
                    lemma_stroke_frame(st1, w, h, color, n);
                    assert((q + 1) * st1.mx == q * st1.mx + st1.mx) by (nonlinear_arith);
                    assert((q + 1) * st1.my == q * st1.my + st1.my) by (nonlinear_arith);
                    assert(i64::MIN <= st1.x + (q + 1) * st1.mx <= i64::MAX) by (nonlinear_arith)
                        requires
                            -1 <= st1.mx <= 1,
                            0 <= q + 1 <= n,
                            i64::MIN <= st1.x <= i64::MAX,
                            i64::MIN <= st1.x + n * st1.mx <= i64::MAX,
                    ;
                    assert(i64::MIN <= st1.y + (q + 1) * st1.my <= i64::MAX) by (nonlinear_arith)
                        requires
                            -1 <= st1.my <= 1,
                            0 <= q + 1 <= n,
                            i64::MIN <= st1.y <= i64::MAX,
                            i64::MIN <= st1.y + n * st1.my <= i64::MAX,
                    ;
                }
                x = x + move_x;
                y = y + move_y;
                paint_cell(canvas, x, y, color);
                q = q + 1;
            }
            step = 0;
            proof {
                lemma_stroke_frame(st1, w, h, color, n);
            }
            assert(tui::spec_grid(*canvas) == next.grid && x == next.x && y == next.y && move_x
                == next.mx && move_y == next.my && step == next.step);
        } else if c == 'd' {
            paint_cell(canvas, x, y, color);
        } else {
            let u = c as u32;
            if 48 <= u && u <= 57 {
                step = step * 10 + ((u - 48) as i64);
            }
        }
        i = i + 1;
    }
    assert(cmd@.take(len as int) =~= cmd@);
    unit::Position::new(x, y)
}

/// How many lines a message occupies: one more than its newline count.
pub open spec fn spec_line_count(cs: Seq<char>) -> int
    decreases cs.len(),
{
    if cs.len() == 0 {
        1
    } else {
        spec_line_count(cs.drop_last()) + if cs.last() == '\n' {
            1int
        } else {
            0int
        }
    }
}

/// Count the lines of a message.
pub fn msg_line_num(msg: String) -> (n: i64)
    requires
        msg@.len() < i64::MAX,
    ensures
        n == spec_line_count(msg@),
{
    let s = msg.as_str();
    let len: usize = s.unicode_len();
    let mut line_num: i64 = 1;
    let mut i: usize = 0;
    assert(msg@.take(0) =~= Seq::<char>::empty());
    while i < len
        invariant
            0 <= i <= len,
            len == msg@.len(),
            len < i64::MAX,
            s@ == msg@,
            line_num == spec_line_count(msg@.take(i as int)),
            1 <= line_num <= i + 1,
        decreases len - i,
    {
        proof {
            assert(msg@.take(i + 1).drop_last() =~= msg@.take(i as int));
            assert(msg@.take(i + 1).last() == msg@[i as int]);
        }
        let c = s.get_char(i);
        if c == '\n' {
            line_num = line_num + 1;
        }
        i = i + 1;
    }
    assert(msg@.take(len as int) =~= msg@);
    line_num
}

} // verus!
