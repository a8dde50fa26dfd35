//! Unsigned canvas positions: clamped movement, walking a road of
//! directions, and the direction from one position toward another.

use vstd::prelude::*;
use crate::view::{spec_view_wf, Viewport};

verus! {

/// One of the eight compass directions, or staying in place.
#[derive(Debug, Clone, Copy, PartialEq, Eq, Structural)]
pub enum Direction {
    Up,
    UpperLeft,
    UpperRight,
    Down,
    LowerLeft,
    LowerRight,
    Left,
    Right,
    Middle,
}

/// An unsigned position on the canvas.
#[derive(Debug, Clone, Copy, PartialEq, Eq, Structural)]
pub struct Position {
    pub x: u32,
    pub y: u32,
}

/// Moving left by `step`, stopping at 0.
pub open spec fn spec_left(p: Position, step: u32) -> Position {
    Position { x: (if step <= p.x { p.x - step } else { 0 }) as u32, y: p.y }
}

/// Moving right by `step`, stopping at `u32::MAX`.
pub open spec fn spec_right(p: Position, step: u32) -> Position {
    Position { x: (if step <= u32::MAX - p.x { p.x + step } else { u32::MAX as int }) as u32, y: p.y }
}

/// Moving up by `step`, stopping at 0.
pub open spec fn spec_up(p: Position, step: u32) -> Position {
    Position { x: p.x, y: (if step <= p.y { p.y - step } else { 0 }) as u32 }
}

/// Moving down by `step`, stopping at `u32::MAX`.
pub open spec fn spec_down(p: Position, step: u32) -> Position {
    Position { x: p.x, y: (if step <= u32::MAX - p.y { p.y + step } else { u32::MAX as int }) as u32 }
}

/// One step of walking a road.
pub open spec fn spec_step(p: Position, dir: Direction) -> Position {
    match dir {
        Direction::Up => spec_up(p, 1),
        Direction::UpperLeft => spec_left(spec_up(p, 1), 1),
        Direction::UpperRight => spec_right(spec_up(p, 1), 1),
        Direction::Down => spec_down(p, 1),
        Direction::LowerLeft => spec_left(spec_down(p, 1), 1),
        Direction::LowerRight => spec_right(spec_down(p, 1), 1),
        Direction::Left => spec_left(p, 1),
        Direction::Right => spec_right(p, 1),
        Direction::Middle => p,
    }
}

/// Where walking the whole road from `p` ends.
pub open spec fn spec_road(p: Position, road: Seq<Direction>) -> Position
    decreases road.len(),
{
    if road.len() == 0 {
        p
    } else {
        spec_step(spec_road(p, road.drop_last()), road.last())
    }
}

/// The relation between a fold over a road and its result: `out` is
/// reachable by stepping through `road` from `p`, threading the accumulator
/// through `f` at each step (`f` is applied to the position after the step).
pub open spec fn spec_fold_road<F, T>(
    f: F,
    p: Position,
    road: Seq<Direction>,
    init: T,
    out: (Position, T),
) -> bool where F: Fn((u32, u32), T) -> T
    decreases road.len(),
{
    if road.len() == 0 {
        out == (p, init)
    } else {
        exists|mid: (Position, T)|
            #![all_triggers]
            (spec_fold_road(f, p, road.drop_last(), init, mid) && out.0 == spec_step(
                mid.0,
                road.last(),
            ) && call_ensures(f, ((out.0.x, out.0.y), mid.1), out.1))
    }
}

/// The direction from `src` toward `dst`, by comparing coordinates.
pub open spec fn spec_direction(src: Position, dst: Position) -> Direction {
    if src.x > dst.x && src.y < dst.y {
        Direction::LowerLeft
    } else if src.x > dst.x && src.y > dst.y {
        Direction::UpperLeft
    } else if src.x > dst.x && src.y == dst.y {
        Direction::Left
    } else if src.x < dst.x && src.y < dst.y {
        Direction::LowerRight
    } else if src.x < dst.x && src.y > dst.y {
        Direction::UpperRight
    } else if src.x < dst.x && src.y == dst.y {
        Direction::Right
    } else if src.x == dst.x && src.y < dst.y {
        Direction::Down
    } else if src.x == dst.x && src.y > dst.y {
        Direction::Up
    } else {
        Direction::Middle
    }
}

impl Position {
    fn wrap(x: u32, y: u32) -> (p: Self)
        ensures
            p == (Position { x, y }),
    {
        Self { x, y }
    }

    pub fn new(xy: (u32, u32)) -> (p: Self)
        ensures
            p == (Position { x: xy.0, y: xy.1 }),
    {
        Self::wrap(xy.0, xy.1)
    }

    pub fn default() -> (p: Self)
        ensures
            p == (Position { x: 0u32, y: 0u32 }),
    {
        Self::wrap(0, 0)
    }

    /// The two coordinates as a tuple.
    pub fn xy(&self) -> (t: (u32, u32))
        ensures
            t == (self.x, self.y),
    {
        (self.x, self.y)
    }

    pub fn move_xy(&self, xy: (u32, u32)) -> (p: Self)
        ensures
            p == (Position { x: xy.0, y: xy.1 }),
    {
        Self::wrap(xy.0, xy.1)
    }

    pub fn move_x(&self, x: u32) -> (p: Self)
        ensures
            p == (Position { x, y: self.y }),
    {
        Self::wrap(x, self.y)
    }

    pub fn move_y(&self, y: u32) -> (p: Self)
        ensures
            p == (Position { x: self.x, y }),
    {
        Self::wrap(self.x, y)
    }

    pub fn left(&self, step: u32) -> (p: Self)
        ensures
            p == spec_left(*self, step),
    {
        let step: u32 = if self.x <= step { self.x } else { step };
        Self::wrap(self.x - step, self.y)
    }

    pub fn right(&self, step: u32) -> (p: Self)
        ensures
            p == spec_right(*self, step),
    {
        let room: u32 = u32::MAX - self.x;
        let step: u32 = if room <= step { room } else { step };
        Self::wrap(self.x + step, self.y)
    }

    pub fn up(&self, step: u32) -> (p: Self)
        ensures
            p == spec_up(*self, step),
    {
        let step: u32 = if self.y <= step { self.y } else { step };
        Self::wrap(self.x, self.y - step)
    }

    pub fn down(&self, step: u32) -> (p: Self)
        ensures
            p == spec_down(*self, step),
    {
        let room: u32 = u32::MAX - self.y;
        let step: u32 = if room <= step { room } else { step };
        Self::wrap(self.x, self.y + step)
    }

    /// Clamp the position into the rectangle of `view`.
    pub fn put_in(&self, view: &Viewport) -> (p: Self)
        requires
            spec_view_wf(*view),
        ensures
            p.x == if self.x < view.org_x {
                view.org_x as int
            } else if self.x > view.org_x + view.w - 1 {
                view.org_x + view.w - 1
            } else {
                self.x as int
            },
            p.y == if self.y < view.org_y {
                view.org_y as int
            } else if self.y > view.org_y + view.h - 1 {
                view.org_y + view.h - 1
            } else {
                self.y as int
            },
    {
        let (org_x, org_y, w, h) = view.bounds();
        let x: u32 = if self.x >= org_x { self.x } else { org_x };
        let x: u32 = if x <= org_x + (w - 1) { x } else { org_x + (w - 1) };
        let y: u32 = if self.y >= org_y { self.y } else { org_y };
        let y: u32 = if y <= org_y + (h - 1) { y } else { org_y + (h - 1) };
        Self::wrap(x, y)
    }

    fn step(self, dir: &Direction) -> (p: Self)
        ensures
            p == spec_step(self, *dir),
    {
        match dir {
            Direction::Up => self.up(1),
            Direction::UpperLeft => self.up(1).left(1),
            Direction::UpperRight => self.up(1).right(1),
            Direction::Down => self.down(1),
            Direction::LowerLeft => self.down(1).left(1),
            Direction::LowerRight => self.down(1).right(1),
            Direction::Left => self.left(1),
            Direction::Right => self.right(1),
            Direction::Middle => self,
        }
    }

    /// Walk the road, folding `f` over the position after each step.
    pub fn app_road_with_fold<F, T>(&self, road: &Vec<Direction>, init: T, f: F) -> (res: (
        Position,
        T,
    )) where F: Fn((u32, u32), T) -> T
        requires
            forall|a: ((u32, u32), T)| #[trigger] call_requires(f, a),
        ensures
            res.0 == spec_road(*self, road@),
            spec_fold_road(f, *self, road@, init, res),
    {
        let ghost init0 = init;
        let mut pos = self.clone();
        let mut item = init;
        let mut i: usize = 0;
        assert(road@.take(0) =~= Seq::<Direction>::empty());
        while i < road.len()
            invariant
                0 <= i <= road@.len(),
                forall|a: ((u32, u32), T)| #[trigger] call_requires(f, a),
                pos == spec_road(*self, road@.take(i as int)),
                spec_fold_road(f, *self, road@.take(i as int), init0, (pos, item)),
            decreases road@.len() - i,
        {
            let ghost prev = (pos, item);
            pos = pos.step(&road[i]);
            item = f(pos.xy(), item);
            i = i + 1;
            proof {
                let t = road@.take(i as int);
                assert(t.len() == i as int);
                assert(t.drop_last() =~= road@.take(i - 1));
                assert(t.last() == road@[i - 1]);
                assert(spec_fold_road(f, *self, t.drop_last(), init0, prev));
                assert(pos == spec_step(prev.0, t.last()));
                assert(call_ensures(f, ((pos.x, pos.y), prev.1), item));
                assert(spec_fold_road(f, *self, t, init0, (pos, item)));
            }
        }
        assert(road@.take(road@.len() as int) =~= road@);
        (pos, item)
    }

    /// Walk the road; where it ends.
    pub fn app_road(&self, road: &Vec<Direction>) -> (p: Position)
        ensures
            p == spec_road(*self, road@),
    {
        let mut pos = self.clone();
        let mut i: usize = 0;
        while i < road.len()
            invariant
                0 <= i <= road@.len(),
                pos == spec_road(*self, road@.take(i as int)),
            decreases road@.len() - i,
        {
            pos = pos.step(&road[i]);
            i = i + 1;
            proof {
                let t = road@.take(i as int);
                assert(t.drop_last() =~= road@.take(i - 1));
            }
        }
        assert(road@.take(road@.len() as int) =~= road@);
        pos
    }

    /// The direction from `self` toward `target`.
    pub fn get_direction(&self, target: &Position) -> (d: Direction)
        ensures
            d == spec_direction(*self, *target),
    {
        let (src_x, src_y) = self.xy();
        let (dst_x, dst_y) = target.xy();
        if src_x > dst_x && src_y < dst_y {
            Direction::LowerLeft
        } else if src_x > dst_x && src_y > dst_y {
            Direction::UpperLeft
        } else if src_x > dst_x && src_y == dst_y {
            Direction::Left
        } else if src_x < dst_x && src_y < dst_y {
            Direction::LowerRight
        } else if src_x < dst_x && src_y > dst_y {
            Direction::UpperRight
        } else if src_x < dst_x && src_y == dst_y {
            Direction::Right
        } else if src_x == dst_x && src_y < dst_y {
            Direction::Down
        } else if src_x == dst_x && src_y > dst_y {
            Direction::Up
        } else {
            Direction::Middle
        }
    }
}

} // verus!
