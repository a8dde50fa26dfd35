//! Signed cursor positions for the drawing command language, and trimming of
//! a trailing line terminator from raw input.

use vstd::prelude::*;
use vstd::string::StrSliceExecFns;

verus! {

/// A signed position: drawing commands may move the cursor off the canvas.
#[derive(Debug, Clone, Copy, PartialEq, Eq, Structural)]
pub struct Position {
    pub x: i64,
    pub y: i64,
}

impl Position {
    pub fn new(x: i64, y: i64) -> (p: Self)
        ensures
            p == (Position { x, y }),
    {
        Self { x, y }
    }

    pub fn default() -> (p: Self)
        ensures
            p == (Position { x: 0i64, y: 0i64 }),
    {
        Self { x: 0, y: 0 }
    }

    /// Componentwise sum of two positions.
    pub fn add(self, rhs: Position) -> (p: Self)
        requires
            i64::MIN <= self.x + rhs.x <= i64::MAX,
            i64::MIN <= self.y + rhs.y <= i64::MAX,
        ensures
            p.x == self.x + rhs.x,
            p.y == self.y + rhs.y,
    {
        Position::new(self.x + rhs.x, self.y + rhs.y)
    }
}

/// What trimming one trailing line terminator leaves: a final `'\n'` is
/// removed, together with a `'\r'` just before it.
pub open spec fn spec_trim_newline(s: Seq<char>) -> Seq<char> {
    if s.len() > 0 && s.last() == '\n' {
        if s.len() > 1 && s[s.len() - 2] == '\r' {
            s.drop_last().drop_last()
        } else {
            s.drop_last()
        }
    } else {
        s
    }
}

/// Remove one trailing `"\n"` or `"\r\n"`; anything else is kept.
pub fn trim_newline(s: String) -> (t: String)
    ensures
        t@ == spec_trim_newline(s@),
{
    let len: usize = s.as_str().unicode_len();
    if len > 0 && s.as_str().get_char(len - 1) == '\n' {
        if len > 1 && s.as_str().get_char(len - 2) == '\r' {
            let t = s.as_str().substring_char(0, len - 2);
            assert(t@ =~= s@.drop_last().drop_last());
            t.to_owned()
        } else {
            let t = s.as_str().substring_char(0, len - 1);
            assert(t@ =~= s@.drop_last());
            t.to_owned()
        }
    } else {
        s
    }
}

} // verus!
