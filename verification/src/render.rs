//! Painting into a frame of pixels.
//!
//! A frame is a slice of bytes that holds its pixels row by row, four bytes
//! for each: red, green, blue, alpha. Bytes after the last whole pixel belong
//! to no pixel and are never written. The frame itself belongs to the host,
//! which shows it; the functions here only decide which bytes get which value.

use crate::actor::{bodies_of, Body, SimulationActor};
use crate::scalar::Scalar;
use vstd::prelude::*;

verus! {

/// The number of bytes that hold one pixel.
pub const BYTES_PER_PIXEL: usize = 4;

/// The colour that [`checker_board`] gives the first pixel.
pub const CHECKER_START: [u8; 4] = [13, 152, 186, 0];

/// A position on the pixel grid: column first, then row.
#[derive(Copy, Clone, Debug, PartialEq, Eq, Structural)]
pub struct PixelPoint(pub u32, pub u32);

/// The size of a frame, in pixels.
#[derive(Copy, Clone, Debug, PartialEq, Eq, Structural)]
pub struct FrameSize {
    /// The number of pixels in a row.
    pub width: u32,
    /// The number of rows.
    pub height: u32,
}

/// What is drawn for a body: a filled circle.
#[derive(Copy, Clone, Debug)]
pub struct Disc {
    /// The pixel at the middle.
    pub center: PixelPoint,
    /// The radius, in pixels.
    pub radius: u32,
    /// The colour: red, green, blue, alpha.
    pub color: [u8; 4],
}

/// The pixel nearest to a position, if both coordinates are on the grid.
pub open spec fn projection(at: (Scalar, Scalar)) -> Option<PixelPoint> {
    if at.0.on_grid() && at.1.on_grid() {
        Some(PixelPoint(at.0.nearest() as u32, at.1.nearest() as u32))
    } else {
        None
    }
}

/// What is drawn for a body: a disc of the body's radius and colour around
/// the pixel nearest to it, or nothing if the body is off the grid.
pub open spec fn disc_of(body: Body) -> Option<Disc> {
    match projection(body.position) {
        Some(center) => Some(Disc { center, radius: body.radius, color: body.color }),
        None => None,
    }
}

/// What is drawn for a sequence of bodies: the discs of those on the grid, in
/// the order of the bodies.
pub open spec fn discs_of(bodies: Seq<Body>) -> Seq<Disc> {
    bodies.filter_map(|body: Body| disc_of(body))
}

/// The number of whole pixels that a frame of `len` bytes holds.
pub open spec fn pixels_in(len: nat) -> int {
    len as int / 4
}

/// The place in the frame's row-major order of the pixel at `p`.
pub open spec fn index_of(p: PixelPoint, size: FrameSize) -> int {
    p.0 + p.1 * size.width
}

/// The position of the pixel at place `index` of the row-major order: the
/// remainder and the quotient of the index by the width. Of an index that
/// does not fit in 32 bits, only the low 32 bits count.
pub open spec fn point_at(index: usize, size: FrameSize) -> PixelPoint {
    PixelPoint((index as u32 % size.width) as u32, (index as u32 / size.width) as u32)
}

/// The pixel at `p` lies in the rectangle that spans `width` columns to the
/// right of `corner` and `height` rows below it, the borders included.
pub open spec fn in_rectangle(p: PixelPoint, corner: PixelPoint, width: u32, height: u32) -> bool {
    corner.0 <= p.0 <= corner.0 + width && corner.1 <= p.1 <= corner.1 + height
}

/// The value that a colour component has `steps` pixels after it had the
/// value `start` in a checker board: each pixel takes the component down to
/// its remainder by 255 and adds 1.
pub open spec fn shade(start: u8, steps: nat) -> u8
    decreases steps,
{
    if steps == 0 {
        start
    } else {
        (shade(start, (steps - 1) as nat) % 255 + 1) as u8
    }
}

/// The size that the window has when it opens.
pub fn default_window_size() -> (size: FrameSize)
    ensures
        size == (FrameSize { width: 800, height: 600 }),
{
    FrameSize { width: 800, height: 600 }
}

/// The number of pixels in a frame of the given size.
pub fn num_pixels(size: &FrameSize) -> (count: u64)
    ensures
        count == size.width * size.height,
{
    assert(size.width * size.height <= 0xFFFF_FFFF * 0xFFFF_FFFF) by (nonlinear_arith)
        requires
            size.width <= 0xFFFF_FFFF,
            size.height <= 0xFFFF_FFFF,
    ;
    size.width as u64 * size.height as u64
}

/// The place of the pixel at `p` in the row-major order of a frame.
pub fn to_index(p: PixelPoint, size: &FrameSize) -> (index: usize)
    requires
        index_of(p, *size) <= u32::MAX,
    ensures
        index == index_of(p, *size),
{
    assert(p.1 * size.width >= 0) by (nonlinear_arith);
    (p.0 + p.1 * size.width) as usize
}

/// The position of the pixel at place `index` of the row-major order. Only
/// the low 32 bits of `index` count.
pub fn to_pixel_coordinates(index: usize, size: &FrameSize) -> (p: PixelPoint)
    requires
        size.width > 0,
    ensures
        p == point_at(index, *size),
        index <= u32::MAX ==> p.0 == index % size.width as usize && p.1 == index
            / size.width as usize,
{
    let low = # [verifier::truncate] (index as u32);
    PixelPoint(low % size.width, low / size.width)
}

/// Gives the pixel at place `k` the colour `color`.
fn paint(frame: &mut [u8], k: usize, color: [u8; 4])
    requires
        k < pixels_in(old(frame)@.len()),
    ensures
        final(frame)@.len() == old(frame)@.len(),
        forall|i: int|
            0 <= i < old(frame)@.len() ==> #[trigger] final(frame)@[i] == if i / 4 == k {
                color[i % 4]
            } else {
                old(frame)@[i]
            },
{
    assert(frame@.len() == frame.len());
    let at = k * BYTES_PER_PIXEL;
    frame[at] = color[0];
    frame[at + 1] = color[1];
    frame[at + 2] = color[2];
    frame[at + 3] = color[3];
}

/// Gives every pixel the colour `color`.
pub fn clear_frame(frame: &mut [u8], color: [u8; 4])
    ensures
        final(frame)@.len() == old(frame)@.len(),
        forall|i: int|
            0 <= i < old(frame)@.len() ==> #[trigger] final(frame)@[i] == if i / 4 < pixels_in(
                old(frame)@.len(),
            ) {
                color[i % 4]
            } else {
                old(frame)@[i]
            },
{
    let n = frame.len() / BYTES_PER_PIXEL;
    let mut k: usize = 0;
    while k < n
        invariant
            k <= n,
            n == pixels_in(frame@.len()),
            frame@.len() == old(frame)@.len(),
            forall|i: int|
                0 <= i < frame@.len() ==> #[trigger] frame@[i] == if i / 4 < k {
                    color[i % 4]
                } else {
                    old(frame)@[i]
                },
        decreases n - k,
    {
        paint(frame, k, color);
        k = k + 1;
    }
}

/// Gives the pixel at `pos` the colour `color`.
pub fn set_pixel(frame: &mut [u8], size: &FrameSize, pos: PixelPoint, color: [u8; 4])
    requires
        index_of(pos, *size) <= u32::MAX,
        index_of(pos, *size) < pixels_in(old(frame)@.len()),
    ensures
        final(frame)@.len() == old(frame)@.len(),
        forall|i: int|
            0 <= i < old(frame)@.len() ==> #[trigger] final(frame)@[i] == if i / 4 == index_of(
                pos,
                *size,
            ) {
                color[i % 4]
            } else {
                old(frame)@[i]
            },
{
    let k = to_index(pos, size);
    paint(frame, k, color);
}

/// Paints the pixels in turn with a colour that changes from each pixel to
/// the next: it starts as [`CHECKER_START`], and after each pixel every
/// component is taken down to its remainder by 255 and raised by 1.
pub fn checker_board(frame: &mut [u8])
    ensures
        final(frame)@.len() == old(frame)@.len(),
        forall|i: int|
            0 <= i < old(frame)@.len() ==> #[trigger] final(frame)@[i] == if i / 4 < pixels_in(
                old(frame)@.len(),
            ) {
                shade(CHECKER_START[i % 4], (i / 4) as nat)
            } else {
                old(frame)@[i]
            },
{
    let n = frame.len() / BYTES_PER_PIXEL;
    let mut color: [u8; 4] = CHECKER_START;
    let mut k: usize = 0;
    while k < n
        invariant
            k <= n,
            n == pixels_in(frame@.len()),
            frame@.len() == old(frame)@.len(),
            forall|c: int| 0 <= c < 4 ==> color[c] == shade(#[trigger] CHECKER_START[c], k as nat),
            forall|i: int|
                0 <= i < frame@.len() ==> #[trigger] frame@[i] == if i / 4 < k {
                    shade(CHECKER_START[i % 4], (i / 4) as nat)
                } else {
                    old(frame)@[i]
                },
        decreases n - k,
    {
        paint(frame, k, color);
        color = [color[0] % 255 + 1, color[1] % 255 + 1, color[2] % 255 + 1, color[3] % 255 + 1];
        k = k + 1;
    }
}

/// Gives the colour `color` to every pixel in the rectangle that spans
/// `width` columns to the right of `corner` and `height` rows below it, the
/// borders included.
pub fn draw_rectangle(
    frame: &mut [u8],
    size: &FrameSize,
    corner: PixelPoint,
    width: u32,
    height: u32,
    color: [u8; 4],
)
    requires
        size.width > 0 || pixels_in(old(frame)@.len()) == 0,
        corner.0 + width <= u32::MAX,
        corner.1 + height <= u32::MAX,
    ensures
        final(frame)@.len() == old(frame)@.len(),
        forall|i: int|
            0 <= i < old(frame)@.len() ==> #[trigger] final(frame)@[i] == if i / 4 < pixels_in(
                old(frame)@.len(),
            ) && in_rectangle(point_at((i / 4) as usize, *size), corner, width, height) {
                color[i % 4]
            } else {
                old(frame)@[i]
            },
{
    let n = frame.len() / BYTES_PER_PIXEL;
    let mut k: usize = 0;
    while k < n
        invariant
            k <= n,
            n == pixels_in(frame@.len()),
            size.width > 0 || n == 0,
            corner.0 + width <= u32::MAX,
            corner.1 + height <= u32::MAX,
            frame@.len() == old(frame)@.len(),
            forall|i: int|
                0 <= i < frame@.len() ==> #[trigger] frame@[i] == if i / 4 < k && in_rectangle(
                    point_at((i / 4) as usize, *size),
                    corner,
                    width,
                    height,
                ) {
                    color[i % 4]
                } else {
                    old(frame)@[i]
                },
        decreases n - k,
    {
        let pos = to_pixel_coordinates(k, size);
        if pos.0 >= corner.0 && pos.0 <= corner.0 + width && pos.1 >= corner.1 && pos.1
            <= corner.1 + height {
            paint(frame, k, color);
        }
        k = k + 1;
    }
}

/// The pixel nearest to a position. There is none if a coordinate is below
/// zero or at or above 4294967295; a coordinate that is a NaN counts as 0.
pub fn project(at: (Scalar, Scalar)) -> (pixel: Option<PixelPoint>)
    ensures
        pixel == projection(at),
{
    match (at.0.to_grid(), at.1.to_grid()) {
        (Some(column), Some(row)) => Some(PixelPoint(column, row)),
        _ => None,
    }
}

/// The discs to draw for the bodies of a simulation, in the order of the
/// bodies. A body off the grid has none.
pub fn visible_discs(actors: &[SimulationActor]) -> (discs: Vec<Disc>)
    ensures
        discs@ == discs_of(bodies_of(actors@)),
{
    let ghost bodies = bodies_of(actors@);
    let n = actors.len();
    let mut discs: Vec<Disc> = Vec::new();
    let mut k: usize = 0;
    assert(bodies.take(0) =~= Seq::<Body>::empty());
    while k < n
        invariant
            k <= n,
            n == actors@.len(),
            bodies == bodies_of(actors@),
            discs@ == discs_of(bodies.take(k as int)),
        decreases n - k,
    {
        proof {
            lemma_discs_one_more(bodies, k as int);
        }
        match project(actors[k].coordinates()) {
            Some(center) => {
                discs.push(Disc { center, radius: actors[k].radius(), color: actors[k].get_color() });
            },
            None => {},
        }
        k = k + 1;
    }
    assert(bodies.take(n as int) =~= bodies);
    discs
}

/// The discs of one body more: the disc of the body at `k`, if it has one,
/// comes after the discs of the bodies before it.
pub proof fn lemma_discs_one_more(bodies: Seq<Body>, k: int)
    requires
        0 <= k < bodies.len(),
    ensures
        discs_of(bodies.take(k + 1)) == match disc_of(bodies[k]) {
            Some(disc) => discs_of(bodies.take(k)).push(disc),
            None => discs_of(bodies.take(k)),
        },
{
    assert(bodies.take(k + 1).drop_last() =~= bodies.take(k));
    match disc_of(bodies[k]) {
        Some(disc) => {
            assert(discs_of(bodies.take(k)) + seq![disc] =~= discs_of(bodies.take(k)).push(disc));
        },
        None => {},
    }
}

/// A position and its place in the row-major order determine each other, as
/// long as the position lies in a column that the frame has.
pub proof fn lemma_index_and_point_are_inverse(p: PixelPoint, size: FrameSize)
    requires
        p.0 < size.width,
        index_of(p, size) <= u32::MAX,
    ensures
        point_at(index_of(p, size) as usize, size) == p,
{
    let w = size.width as int;
    assert((p.0 + p.1 * w) % w == p.0 && (p.0 + p.1 * w) / w == p.1) by (nonlinear_arith)
        requires
            0 <= p.0 < w,
            0 <= p.1,
    ;
}

} // verus!
