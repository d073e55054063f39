//! The quadrilateral that stands for a thick line segment, and the rule that
//! decides whether four corners may form one.

use vstd::prelude::*;

verus! {

/// A position on the pixel grid. It may lie outside any canvas.
#[derive(Clone, Copy, Debug, PartialEq, Eq, Structural)]
pub struct Position {
    pub x: i32,
    pub y: i32,
}

/// Why no quadrilateral was built for a segment. Both reasons are expected
/// outcomes: the renderer answers either with its disc fallback.
#[derive(Clone, Copy, Debug, PartialEq, Eq, Structural)]
pub enum DegenerateSegment {
    /// The end points are no farther apart than the closeness threshold.
    TooClose,
    /// The first and the last corner fell on the same pixel.
    Collapsed,
}

/// Four corners in boundary order: start minus offset, start plus offset,
/// end plus offset, end minus offset. The first and the last corner differ.
#[derive(Clone, Copy, Debug)]
pub struct Quadrilateral {
    corners: [Position; 4],
}

impl Quadrilateral {
    /// The corners in boundary order.
    pub closed spec fn corners(&self) -> Seq<Position> {
        self.corners@
    }

    #[verifier::type_invariant]
    spec fn open_path(&self) -> bool {
        self.corners@[0] != self.corners@[3]
    }

    /// Accepts four corners as a quadrilateral unless the first and the last
    /// coincide.
    pub fn new(corners: [Position; 4]) -> (built: Result<Quadrilateral, DegenerateSegment>)
        ensures
            corners@[0] == corners@[3] <==> built == Err::<Quadrilateral, DegenerateSegment>(
                DegenerateSegment::Collapsed,
            ),
            corners@[0] != corners@[3] <==> built.is_ok(),
            built matches Ok(quad) ==> quad.corners() == corners@,
    {
        let first = corners[0];
        let last = corners[3];
        if first.x == last.x && first.y == last.y {
            Err(DegenerateSegment::Collapsed)
        } else {
            Ok(Quadrilateral { corners })
        }
    }

    /// The corners as an array, in boundary order. Whatever built the
    /// quadrilateral, its boundary does not end on the corner it starts from.
    pub fn to_array(&self) -> (corners: [Position; 4])
        ensures
            corners@ == self.corners(),
            corners@[0] != corners@[3],
    {
        proof {
            use_type_invariant(self);
        }
        self.corners
    }
}

} // verus!
