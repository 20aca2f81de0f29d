//! Lines: the pixels that `line` draws, from Bresenham's algorithm.

use vstd::prelude::*;

verus! {

/// The octant of the line from `start` to `end`, as the iterator numbers
/// them: 4 is added where the line runs up the y axis negatively, 2 where it
/// then runs left, 1 where it is then steeper than diagonal.
pub open spec fn octant(start: (int, int), end: (int, int)) -> int {
    let dx0 = end.0 - start.0;
    let dy0 = end.1 - start.1;
    let (dx1, dy1, o1) = if dy0 < 0 {
        (-dx0, -dy0, 4int)
    } else {
        (dx0, dy0, 0int)
    };
    let (dx2, dy2, o2) = if dx1 < 0 {
        (dy1, -dx1, o1 + 2)
    } else {
        (dx1, dy1, o1)
    };
    if dx2 < dy2 {
        o2 + 1
    } else {
        o2
    }
}

/// A point carried into the first octant.
pub open spec fn to_octant0(o: int, p: (int, int)) -> (int, int) {
    if o == 0 {
        (p.0, p.1)
    } else if o == 1 {
        (p.1, p.0)
    } else if o == 2 {
        (p.1, -p.0)
    } else if o == 3 {
        (-p.0, p.1)
    } else if o == 4 {
        (-p.0, -p.1)
    } else if o == 5 {
        (-p.1, -p.0)
    } else if o == 6 {
        (-p.1, p.0)
    } else {
        (p.0, -p.1)
    }
}

/// A point carried back from the first octant.
pub open spec fn from_octant0(o: int, p: (int, int)) -> (int, int) {
    if o == 0 {
        (p.0, p.1)
    } else if o == 1 {
        (p.1, p.0)
    } else if o == 2 {
        (-p.1, p.0)
    } else if o == 3 {
        (-p.0, p.1)
    } else if o == 4 {
        (-p.0, -p.1)
    } else if o == 5 {
        (-p.1, -p.0)
    } else if o == 6 {
        (p.1, -p.0)
    } else {
        (p.0, -p.1)
    }
}

/// The points of the first octant from column `x` up to `x1`: each step
/// yields `(x, y)`, then moves `y` up where the error `diff` is not negative.
pub open spec fn octant0_points(o: int, x: int, y: int, dx: int, dy: int, x1: int, diff: int) -> Seq<(int, int)>
    decreases x1 - x,
{
    if x >= x1 {
        seq![]
    } else {
        let (y2, diff2) = if diff >= 0 {
            (y + 1, diff - dx + dy)
        } else {
            (y, diff + dy)
        };
        seq![from_octant0(o, (x, y))] + octant0_points(o, x + 1, y2, dx, dy, x1, diff2)
    }
}

/// The points that `bresenham::Bresenham::new(start, end)` yields: the line
/// carried into the first octant, stepped column by column from its start
/// up to, not including, its end, and carried back.
pub open spec fn bresenham_points(start: (isize, isize), end: (isize, isize)) -> Seq<(isize, isize)> {
    let a = (start.0 as int, start.1 as int);
    let b = (end.0 as int, end.1 as int);
    let o = octant(a, b);
    let s0 = to_octant0(o, a);
    let e0 = to_octant0(o, b);
    let dx = e0.0 - s0.0;
    let dy = e0.1 - s0.1;
    octant0_points(o, s0.0, s0.1, dx, dy, e0.0, dy - dx).map_values(|p: (int, int)| (p.0 as isize, p.1 as isize))
}

/// The larger of the distances between two points along the axes.
pub open spec fn chebyshev(start: (isize, isize), end: (isize, isize)) -> int {
    let dx = if end.0 >= start.0 {
        end.0 - start.0
    } else {
        start.0 - end.0
    };
    let dy = if end.1 >= start.1 {
        end.1 - start.1
    } else {
        start.1 - end.1
    };
    if dx >= dy {
        dx
    } else {
        dy
    }
}

/// Are both coordinates between 0 and `i32::MAX`? The iterator negates
/// coordinates and subtracts them in `isize`, which may be 32 bits wide; for
/// such points every negation and every difference it forms fits.
pub open spec fn small_point(p: (isize, isize)) -> bool {
    0 <= p.0 <= i32::MAX && 0 <= p.1 <= i32::MAX
}

/// Collects `bresenham::Bresenham::new(start, end)`: the points of the line
/// from `start` towards `end`, one per step along the longer axis, starting at
/// `start` and leaving out `end`, as [`bresenham_points`] states them from the
/// crate's source (bresenham-0.1.1 src/lib.rs, `Octant` and `Iterator::next`).
#[verifier::external_body]
fn bresenham_line(start: (isize, isize), end: (isize, isize)) -> (r: Vec<(isize, isize)>)
    requires
        small_point(start),
        small_point(end),
    ensures
        r@ == bresenham_points(start, end),
        r@.len() == chebyshev(start, end),
        r@.len() > 0 ==> r@[0] == start,
{
    bresenham::Bresenham::new(start, end).collect()
}

/// How `line` draws from `a` to `b`: an image of `size` pixels whose top left
/// is `min`, with the pixels `points` set.
pub struct LinePlan {
    pub min: (i32, i32),
    pub size: (u32, u32),
    pub points: Vec<(isize, isize)>,
}

/// The distance between two numbers.
pub open spec fn dist(a: int, b: int) -> int {
    if a >= b {
        a - b
    } else {
        b - a
    }
}

/// The smaller of two numbers.
pub open spec fn lesser(a: int, b: int) -> int {
    if a <= b {
        a
    } else {
        b
    }
}

/// The magnitude of `x`.
fn abs_u32(x: i32) -> (r: u32)
    ensures
        r == if x >= 0 {
            x as int
        } else {
            -x
        },
{
    if x >= 0 {
        x as u32
    } else {
        (-(x as i64)) as u32
    }
}

/// The plan of a line from `a` to `b`: the box that holds both ends, and the
/// points of the line within it, from the corner at `a` towards the corner at
/// `b`.
pub fn line_plan(a: (i32, i32), b: (i32, i32)) -> (r: LinePlan)
    requires
        i32::MIN < b.0 - a.0 <= i32::MAX,
        i32::MIN < b.1 - a.1 <= i32::MAX,
    ensures
        r.min == (lesser(a.0 as int, b.0 as int) as i32, lesser(a.1 as int, b.1 as int) as i32),
        r.size == ((dist(a.0 as int, b.0 as int) + 1) as u32, (dist(a.1 as int, b.1 as int) + 1) as u32),
        r.points@ == bresenham_points(
            ((a.0 - r.min.0) as isize, (a.1 - r.min.1) as isize),
            ((b.0 - r.min.0) as isize, (b.1 - r.min.1) as isize),
        ),
        r.points@.len() == if dist(a.0 as int, b.0 as int) >= dist(a.1 as int, b.1 as int) {
            dist(a.0 as int, b.0 as int)
        } else {
            dist(a.1 as int, b.1 as int)
        },
{
    let min = (if a.0 <= b.0 {
        a.0
    } else {
        b.0
    }, if a.1 <= b.1 {
        a.1
    } else {
        b.1
    });
    let dx = b.0 - a.0;
    let dy = b.1 - a.1;
    let size = (abs_u32(dx) + 1, abs_u32(dy) + 1);
    let c = ((a.0 - min.0) as isize, (a.1 - min.1) as isize);
    let d = ((b.0 - min.0) as isize, (b.1 - min.1) as isize);
    let points = bresenham_line(c, d);
    LinePlan { min, size, points }
}

/// How a program exits: successfully, or with an error code.
#[derive(Debug, Clone, Copy, PartialEq, Eq, Structural)]
pub enum ExitStatus {
    Success,
    Error(u8),
}

/// `exit(error)`: an error code other than zero is an error; none, or zero, is success.
pub fn exit_status(error: Option<u8>) -> (r: ExitStatus)
    ensures
        r == match error {
            Some(n) => if n != 0 {
                ExitStatus::Error(n)
            } else {
                ExitStatus::Success
            },
            None => ExitStatus::Success,
        },
{
    match error {
        Some(n) => if n != 0 {
            ExitStatus::Error(n)
        } else {
            ExitStatus::Success
        },
        None => ExitStatus::Success,
    }
}

} // verus!
