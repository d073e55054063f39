//! The curve renderer: a polyline is painted segment by segment, each as a
//! filled quadrilateral, or as two discs where no quadrilateral could be
//! built.

use crate::canvas::{disc_painted, drawable, is_drawable, polygon_painted, Canvas, Color};
use crate::segment::{DegenerateSegment, Position, Quadrilateral};
use vstd::prelude::*;

verus! {

/// One segment of a polyline, ready to be painted: the pixels of its two end
/// points, and the outline of the thick line between them or the reason why
/// there is none.
#[derive(Clone, Copy, Debug)]
pub struct Segment {
    pub start: Position,
    pub end: Position,
    pub outline: Result<Quadrilateral, DegenerateSegment>,
}

impl Segment {
    /// Whether all that the segment may paint is within the range that the
    /// drawing routines take.
    pub open spec fn drawable(&self) -> bool {
        &&& drawable(self.start)
        &&& drawable(self.end)
        &&& self.outline matches Ok(quad) ==> forall|i: int|
            0 <= i < 4 ==> drawable(#[trigger] quad.corners()[i])
    }

    /// Tells whether all that the segment may paint is within the range that
    /// the drawing routines take.
    pub fn is_drawable(&self) -> (within: bool)
        ensures
            within == self.drawable(),
    {
        if !(is_drawable(self.start) && is_drawable(self.end)) {
            return false;
        }
        match self.outline {
            Ok(quad) => {
                let corners = quad.to_array();
                let within = is_drawable(corners[0]) && is_drawable(corners[1]) && is_drawable(
                    corners[2],
                ) && is_drawable(corners[3]);
                proof {
                    if !within {
                        let missed = if !drawable(corners@[0]) {
                            0int
                        } else if !drawable(corners@[1]) {
                            1int
                        } else if !drawable(corners@[2]) {
                            2int
                        } else {
                            3int
                        };
                        assert(!drawable(quad.corners()[missed]));
                    }
                }
                within
            },
            Err(_) => true,
        }
    }
}

/// The radius of the discs that stand in for a segment without an outline:
/// half the stroke width, rounded down.
pub open spec fn fallback_radius(line_width: u16) -> int {
    line_width as int / 2
}

/// The pixels after one segment was painted: its outline filled, or, where it
/// has none, a disc on its start and then a disc on its end.
pub open spec fn segment_painted(
    pixels: Seq<Color>,
    size: (nat, nat),
    segment: Segment,
    color: Color,
    line_width: u16,
) -> Seq<Color> {
    match segment.outline {
        Ok(quad) => polygon_painted(pixels, size, quad.corners(), color),
        Err(_) => disc_painted(
            disc_painted(pixels, size, segment.start, fallback_radius(line_width), color),
            size,
            segment.end,
            fallback_radius(line_width),
            color,
        ),
    }
}

/// The pixels after the segments were painted one after the other, the first
/// one first: later segments paint over earlier ones.
pub open spec fn line_painted(
    pixels: Seq<Color>,
    size: (nat, nat),
    segments: Seq<Segment>,
    color: Color,
    line_width: u16,
) -> Seq<Color>
    decreases segments.len(),
{
    if segments.len() == 0 {
        pixels
    } else {
        segment_painted(
            line_painted(pixels, size, segments.drop_last(), color, line_width),
            size,
            segments.last(),
            color,
            line_width,
        )
    }
}

/// Painting a line and then one more segment is painting the longer line.
pub proof fn lemma_line_painted_push(
    pixels: Seq<Color>,
    size: (nat, nat),
    segments: Seq<Segment>,
    next: Segment,
    color: Color,
    line_width: u16,
)
    ensures
        line_painted(pixels, size, segments.push(next), color, line_width) == segment_painted(
            line_painted(pixels, size, segments, color, line_width),
            size,
            next,
            color,
            line_width,
        ),
{
    assert(segments.push(next).drop_last() == segments);
    assert(segments.push(next).last() == next);
}

/// Painting two lines one after the other is painting their concatenation.
pub proof fn lemma_line_painted_concat(
    pixels: Seq<Color>,
    size: (nat, nat),
    first: Seq<Segment>,
    second: Seq<Segment>,
    color: Color,
    line_width: u16,
)
    ensures
        line_painted(pixels, size, first + second, color, line_width) == line_painted(
            line_painted(pixels, size, first, color, line_width),
            size,
            second,
            color,
            line_width,
        ),
    decreases second.len(),
{
    if second.len() == 0 {
        assert(first + second == first);
    } else {
        lemma_line_painted_concat(pixels, size, first, second.drop_last(), color, line_width);
        assert((first + second).drop_last() == first + second.drop_last());
        assert((first + second).last() == second.last());
    }
}

/// Paints one segment: its outline as a filled polygon, or, where it has
/// none, a disc of radius `line_width / 2` on each of its end points.
pub fn draw_segment(canvas: &mut Canvas, segment: &Segment, color: Color, line_width: u16)
    requires
        old(canvas).wf(),
        segment.drawable(),
    ensures
        final(canvas).wf(),
        final(canvas).width() == old(canvas).width(),
        final(canvas).height() == old(canvas).height(),
        final(canvas).pixels() == segment_painted(
            old(canvas).pixels(),
            (old(canvas).width(), old(canvas).height()),
            *segment,
            color,
            line_width,
        ),
{
    match segment.outline {
        Ok(quad) => {
            let corners = quad.to_array();
            canvas.fill_polygon(&corners, color);
        },
        Err(_) => {
            let radius: u16 = line_width / 2;
            canvas.fill_circle(segment.start, radius, color);
            canvas.fill_circle(segment.end, radius, color);
        },
    }
}

/// Paints a polyline, segment by segment in the order given.
pub fn draw_line_for_points(
    canvas: &mut Canvas,
    segments: &Vec<Segment>,
    color: Color,
    line_width: u16,
)
    requires
        old(canvas).wf(),
        forall|i: int| 0 <= i < segments.len() ==> (#[trigger] segments[i]).drawable(),
    ensures
        final(canvas).wf(),
        final(canvas).width() == old(canvas).width(),
        final(canvas).height() == old(canvas).height(),
        final(canvas).pixels() == line_painted(
            old(canvas).pixels(),
            (old(canvas).width(), old(canvas).height()),
            segments@,
            color,
            line_width,
        ),
{
    let ghost before = *canvas;
    let ghost size = (canvas.width(), canvas.height());
    let mut index: usize = 0;
    while index < segments.len()
        invariant
            index <= segments.len(),
            canvas.wf(),
            size == (before.width(), before.height()),
            size == (canvas.width(), canvas.height()),
            forall|i: int| 0 <= i < segments.len() ==> (#[trigger] segments[i]).drawable(),
            canvas.pixels() == line_painted(
                before.pixels(),
                size,
                segments@.take(index as int),
                color,
                line_width,
            ),
        decreases segments.len() - index,
    {
        proof {
            lemma_line_painted_push(
                before.pixels(),
                size,
                segments@.take(index as int),
                segments[index as int],
                color,
                line_width,
            );
            assert(segments@.take(index as int).push(segments[index as int]) == segments@.take(
                index as int + 1,
            ));
        }
        draw_segment(canvas, &segments[index], color, line_width);
        index += 1;
    }
    proof {
        assert(segments@.take(index as int) == segments@);
    }
}

} // verus!
