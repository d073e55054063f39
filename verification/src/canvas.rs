//! The raster canvas that strokes are painted on: an RGB pixel buffer of the
//! crate `image`, drawn on by the crate `imageproc`.

use crate::segment::Position;
use image::{ImageBuffer, Rgb};
use imageproc::drawing::{draw_filled_circle_mut, draw_filled_rect_mut, draw_polygon_mut};
use imageproc::point::Point;
use imageproc::rect::Rect;
use vstd::prelude::*;

verus! {

/// The longest side a canvas may have: the drawing routines hold pixel
/// coordinates in an `i32`.
pub const MAX_SIDE: u32 = 0x7fff_ffff;

/// The largest coordinate, by absolute value, that a shape handed to the
/// drawing routines may have: they pass coordinates through single-precision
/// numbers, which hold every integer up to `2^24` exactly.
pub const MAX_COORDINATE: i32 = 0x0100_0000;

/// An RGB colour, eight bits per channel.
#[derive(Clone, Copy, Debug, PartialEq, Eq, Structural)]
pub struct Color {
    pub r: u8,
    pub g: u8,
    pub b: u8,
}

/// A canvas of RGB pixels.
///
/// Trusted: the struct hides an `image::ImageBuffer<Rgb<u8>, Vec<u8>>`; what
/// it holds is known to the verifier only through `canvas_size` and
/// `canvas_pixels`.
#[verifier::external_body]
pub struct Canvas {
    buffer: ImageBuffer<Rgb<u8>, Vec<u8>>,
}

/// Width and height of a canvas, in pixels.
pub uninterp spec fn canvas_size(canvas: Canvas) -> (nat, nat);

/// The pixels of a canvas, row by row from the top, each row from the left.
pub uninterp spec fn canvas_pixels(canvas: Canvas) -> Seq<Color>;

/// The pixels after `imageproc::drawing::draw_polygon_mut` has filled the
/// polygon with the given corners on a canvas of the given size.
pub uninterp spec fn polygon_painted(
    pixels: Seq<Color>,
    size: (nat, nat),
    corners: Seq<Position>,
    color: Color,
) -> Seq<Color>;

/// The pixels after `imageproc::drawing::draw_filled_circle_mut` has filled
/// the disc with the given centre and radius on a canvas of the given size.
pub uninterp spec fn disc_painted(
    pixels: Seq<Color>,
    size: (nat, nat),
    center: Position,
    radius: int,
    color: Color,
) -> Seq<Color>;

/// A canvas of one colour.
pub open spec fn uniform(size: (nat, nat), color: Color) -> Seq<Color> {
    Seq::new(size.0 * size.1, |i: int| color)
}

/// Whether a position is within the range that the drawing routines take.
pub open spec fn drawable(position: Position) -> bool {
    &&& -MAX_COORDINATE <= position.x <= MAX_COORDINATE
    &&& -MAX_COORDINATE <= position.y <= MAX_COORDINATE
}

/// Tells whether a position is within the range that the drawing routines
/// take.
pub fn is_drawable(position: Position) -> (within: bool)
    ensures
        within == drawable(position),
{
    -MAX_COORDINATE <= position.x && position.x <= MAX_COORDINATE && -MAX_COORDINATE <= position.y
        && position.y <= MAX_COORDINATE
}

/// On a canvas of one colour every pixel has that colour.
pub proof fn lemma_uniform_pixel(size: (nat, nat), color: Color, x: nat, y: nat)
    requires
        x < size.0,
        y < size.1,
    ensures
        0 <= y * size.0 + x < size.0 * size.1,
        uniform(size, color)[(y * size.0 + x) as int] == color,
{
    assert(y * size.0 + x < size.0 * size.1) by (nonlinear_arith)
        requires
            x < size.0,
            y < size.1,
    ;
}

/// Whether a buffer of `width` by `height` RGB pixels can be allocated: both
/// sides between 1 and `MAX_SIDE`, and three bytes per pixel within what a
/// vector holds.
pub open spec fn allocatable(width: u32, height: u32) -> bool {
    &&& 1 <= width <= MAX_SIDE
    &&& 1 <= height <= MAX_SIDE
    &&& 3 * width * height <= isize::MAX
}

/// Allocates the buffer.
///
/// Trusted: `image::ImageBuffer::new` panics only where three bytes per pixel
/// overflow the length of a vector, and fills the buffer with zeroes.
#[verifier::external_body]
fn allocate(width: u32, height: u32) -> (canvas: Canvas)
    requires
        3 * width * height <= isize::MAX,
    ensures
        canvas_size(canvas) == (width as nat, height as nat),
        canvas_pixels(canvas) == uniform((width as nat, height as nat), Color { r: 0, g: 0, b: 0 }),
{
    Canvas { buffer: ImageBuffer::new(width, height) }
}

/// Reads the size.
///
/// Trusted: `image::ImageBuffer::dimensions` returns width and height.
#[verifier::external_body]
fn dimensions(canvas: &Canvas) -> (size: (u32, u32))
    ensures
        canvas_size(*canvas) == (size.0 as nat, size.1 as nat),
{
    canvas.buffer.dimensions()
}

/// Reads one pixel.
///
/// Trusted: `image::ImageBuffer::get_pixel` panics outside the bounds and
/// inside them returns the pixel of column `x` in row `y`.
#[verifier::external_body]
fn read_pixel(canvas: &Canvas, x: u32, y: u32) -> (color: Color)
    requires
        x < canvas_size(*canvas).0,
        y < canvas_size(*canvas).1,
    ensures
        color == canvas_pixels(*canvas)[y * canvas_size(*canvas).0 + x],
{
    let pixel = canvas.buffer.get_pixel(x, y);
    Color { r: pixel.0[0], g: pixel.0[1], b: pixel.0[2] }
}

/// Hands out the bytes.
///
/// Trusted: `image::ImageBuffer::into_raw` returns the buffer's vector, which
/// holds the pixels in order, each as its red, green and blue byte.
#[verifier::external_body]
fn take_bytes(canvas: Canvas) -> (bytes: Vec<u8>)
    ensures
        bytes@ == channels(canvas_pixels(canvas), canvas_size(canvas).0 * canvas_size(canvas).1),
{
    canvas.buffer.into_raw()
}

/// Paints every pixel.
///
/// Trusted: `imageproc::drawing::draw_filled_rect_mut` paints the part of the
/// rectangle that lies on the canvas, here all of it. `Rect::of_size` panics
/// on an empty rectangle, and a side beyond `MAX_SIDE` overflows the
/// rectangle's right or bottom edge.
#[verifier::external_body]
fn paint_all(canvas: &mut Canvas, color: Color)
    requires
        1 <= canvas_size(*old(canvas)).0 <= MAX_SIDE,
        1 <= canvas_size(*old(canvas)).1 <= MAX_SIDE,
    ensures
        canvas_size(*final(canvas)) == canvas_size(*old(canvas)),
        canvas_pixels(*final(canvas)) == uniform(canvas_size(*old(canvas)), color),
{
    let rect = Rect::at(0, 0).of_size(canvas.buffer.width(), canvas.buffer.height());
    draw_filled_rect_mut(&mut canvas.buffer, rect, Rgb([color.r, color.g, color.b]));
}

/// Fills a polygon of four corners.
///
/// Trusted: `imageproc::drawing::draw_polygon_mut` panics where the first and
/// the last corner are equal, writes outside the buffer where the canvas has
/// no rows, and overflows on differences of coordinates that an `i32` cannot
/// hold. Otherwise it changes pixels only, as a function of the canvas, the
/// corners and the colour.
#[verifier::external_body]
fn paint_polygon(canvas: &mut Canvas, corners: &[Position; 4], color: Color)
    requires
        1 <= canvas_size(*old(canvas)).0 <= MAX_SIDE,
        1 <= canvas_size(*old(canvas)).1 <= MAX_SIDE,
        corners@[0] != corners@[3],
        forall|i: int| 0 <= i < 4 ==> drawable(#[trigger] corners@[i]),
    ensures
        canvas_size(*final(canvas)) == canvas_size(*old(canvas)),
        canvas_pixels(*final(canvas)) == polygon_painted(
            canvas_pixels(*old(canvas)),
            canvas_size(*old(canvas)),
            corners@,
            color,
        ),
{
    let polygon = [
        Point::new(corners[0].x, corners[0].y),
        Point::new(corners[1].x, corners[1].y),
        Point::new(corners[2].x, corners[2].y),
        Point::new(corners[3].x, corners[3].y),
    ];
    draw_polygon_mut(&mut canvas.buffer, &polygon, Rgb([color.r, color.g, color.b]));
}

/// Fills a disc.
///
/// Trusted: `imageproc::drawing::draw_filled_circle_mut` overflows where the
/// centre plus or minus the radius leaves the range of an `i32`. Otherwise it
/// changes pixels only, as a function of the canvas, the centre, the radius
/// and the colour.
#[verifier::external_body]
fn paint_disc(canvas: &mut Canvas, center: Position, radius: u16, color: Color)
    requires
        drawable(center),
    ensures
        canvas_size(*final(canvas)) == canvas_size(*old(canvas)),
        canvas_pixels(*final(canvas)) == disc_painted(
            canvas_pixels(*old(canvas)),
            canvas_size(*old(canvas)),
            center,
            radius as int,
            color,
        ),
{
    let centre = (center.x, center.y);
    draw_filled_circle_mut(&mut canvas.buffer, centre, i32::from(radius), Rgb([color.r, color.g, color.b]));
}

/// The bytes of `count` pixels: red, green and blue of the first, then of the
/// second, and so on.
pub open spec fn channels(pixels: Seq<Color>, count: nat) -> Seq<u8> {
    Seq::new(
        3 * count,
        |i: int|
            if i % 3 == 0 {
                pixels[i / 3].r
            } else if i % 3 == 1 {
                pixels[i / 3].g
            } else {
                pixels[i / 3].b
            },
    )
}

impl Canvas {
    /// The number of columns.
    pub open spec fn width(&self) -> nat {
        canvas_size(*self).0
    }

    /// The number of rows.
    pub open spec fn height(&self) -> nat {
        canvas_size(*self).1
    }

    /// The pixels, row by row.
    pub open spec fn pixels(&self) -> Seq<Color> {
        canvas_pixels(*self)
    }

    /// The pixel of column `x` in row `y`.
    pub open spec fn pixel_at(&self, x: nat, y: nat) -> Color {
        canvas_pixels(*self)[(y * self.width() + x) as int]
    }

    /// A canvas has at least one pixel, and no side beyond `MAX_SIDE`.
    pub open spec fn wf(&self) -> bool {
        &&& 1 <= self.width() <= MAX_SIDE
        &&& 1 <= self.height() <= MAX_SIDE
    }

    /// A black canvas of the given size, or `None` where no buffer of that
    /// size can be allocated.
    pub fn new(width: u32, height: u32) -> (canvas: Option<Canvas>)
        ensures
            canvas.is_some() <==> allocatable(width, height),
            canvas matches Some(c) ==> {
                &&& c.wf()
                &&& c.width() == width
                &&& c.height() == height
                &&& c.pixels() == uniform((width as nat, height as nat), Color { r: 0, g: 0, b: 0 })
                &&& forall|x: nat, y: nat|
                    x < width && y < height ==> #[trigger] c.pixel_at(x, y) == (Color {
                        r: 0,
                        g: 0,
                        b: 0,
                    })
            },
    {
        if width == 0 || height == 0 || width > MAX_SIDE || height > MAX_SIDE {
            return None;
        }
        assert(3 * width * height <= 3 * 0x7fff_ffff * 0x7fff_ffff) by (nonlinear_arith)
            requires
                width <= 0x7fff_ffff,
                height <= 0x7fff_ffff,
        ;
        let bytes: u64 = 3 * (width as u64) * (height as u64);
        if bytes > isize::MAX as u64 {
            return None;
        }
        let canvas = allocate(width, height);
        proof {
            assert forall|x: nat, y: nat| x < width && y < height implies #[trigger] canvas.pixel_at(
                x,
                y,
            ) == (Color { r: 0, g: 0, b: 0 }) by {
                lemma_uniform_pixel(
                    (width as nat, height as nat),
                    Color { r: 0, g: 0, b: 0 },
                    x,
                    y,
                );
            }
        }
        Some(canvas)
    }

    /// Width and height, in pixels.
    pub fn size(&self) -> (size: (u32, u32))
        ensures
            size.0 == self.width(),
            size.1 == self.height(),
    {
        dimensions(self)
    }

    /// The pixel of column `x` in row `y`, or `None` outside the canvas.
    pub fn pixel(&self, x: u32, y: u32) -> (color: Option<Color>)
        ensures
            color == if x < self.width() && y < self.height() {
                Some(self.pixel_at(x as nat, y as nat))
            } else {
                None
            },
    {
        let size = dimensions(self);
        if x < size.0 && y < size.1 {
            Some(read_pixel(self, x, y))
        } else {
            None
        }
    }

    /// Paints the whole canvas in one colour.
    pub fn fill_background(&mut self, color: Color)
        requires
            old(self).wf(),
        ensures
            final(self).wf(),
            final(self).width() == old(self).width(),
            final(self).height() == old(self).height(),
            final(self).pixels() == uniform((old(self).width(), old(self).height()), color),
            forall|x: nat, y: nat|
                x < old(self).width() && y < old(self).height() ==> #[trigger] final(self).pixel_at(
                    x,
                    y,
                ) == color,
    {
        let ghost size = (self.width(), self.height());
        paint_all(self, color);
        proof {
            assert forall|x: nat, y: nat| x < size.0 && y < size.1 implies #[trigger] self.pixel_at(
                x,
                y,
            ) == color by {
                lemma_uniform_pixel(size, color, x, y);
            }
        }
    }

    /// Fills the polygon with the given four corners, as far as it lies on
    /// the canvas.
    pub fn fill_polygon(&mut self, corners: &[Position; 4], color: Color)
        requires
            old(self).wf(),
            corners@[0] != corners@[3],
            forall|i: int| 0 <= i < 4 ==> drawable(#[trigger] corners@[i]),
        ensures
            final(self).wf(),
            final(self).width() == old(self).width(),
            final(self).height() == old(self).height(),
            final(self).pixels() == polygon_painted(
                old(self).pixels(),
                (old(self).width(), old(self).height()),
                corners@,
                color,
            ),
    {
        paint_polygon(self, corners, color);
    }

    /// Fills the disc with the given centre and radius, as far as it lies on
    /// the canvas.
    pub fn fill_circle(&mut self, center: Position, radius: u16, color: Color)
        requires
            old(self).wf(),
            drawable(center),
        ensures
            final(self).wf(),
            final(self).width() == old(self).width(),
            final(self).height() == old(self).height(),
            final(self).pixels() == disc_painted(
                old(self).pixels(),
                (old(self).width(), old(self).height()),
                center,
                radius as int,
                color,
            ),
    {
        paint_disc(self, center, radius, color);
    }

    /// The canvas as bytes, three per pixel.
    pub fn into_raw(self) -> (bytes: Vec<u8>)
        ensures
            bytes@ == channels(self.pixels(), self.width() * self.height()),
    {
        take_bytes(self)
    }
}

} // verus!
