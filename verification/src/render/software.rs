use vstd::prelude::*;

use std::collections::VecDeque;

use super::types::{Location, Position, Size, Vertex};

verus! {

pub const VRAM_WIDTH: usize = 1024;
pub const VRAM_HEIGHT: usize = 512;
pub const VRAM_LEN: usize = 0x8_0000;

/// Twice the signed area of the triangle `a`, `b`, `p` (the 2D cross product
/// of `p - a` and `b - a`).
pub open spec fn cross(a: Location, b: Location, p: Location) -> int {
    (p.x - a.x) * (b.y - a.y) - (p.y - a.y) * (b.x - a.x)
}

pub open spec fn fits_i16(x: int) -> bool {
    i16::MIN <= x <= i16::MAX
}

/// Whether the 16-bit arithmetic of [`cross2`] stays in range.
pub open spec fn cross_fits(a: Location, b: Location, p: Location) -> bool {
    &&& fits_i16(p.x - a.x)
    &&& fits_i16(b.y - a.y)
    &&& fits_i16(p.y - a.y)
    &&& fits_i16(b.x - a.x)
    &&& fits_i16((p.x - a.x) * (b.y - a.y))
    &&& fits_i16((p.y - a.y) * (b.x - a.x))
    &&& fits_i16(cross(a, b, p))
}

/// The 2D cross product of `p - a` and `b - a`, in 16 bits.
pub fn cross2(a: Location, b: Location, p: Location) -> (r: i16)
    requires
        cross_fits(a, b, p),
    ensures
        r == cross(a, b, p),
{
    (p.x - a.x) * (b.y - a.y) - (p.y - a.y) * (b.x - a.x)
}

/// A VRAM to CPU read of the rectangle at `pos` of `size`, `counter` pixels
/// in: whether the next pixel can be read without 16-bit overflow.
pub open spec fn pop_defined(pos: Position, size: Size, counter: u16) -> bool {
    &&& size.w * size.h <= u16::MAX
    &&& counter < size.w * size.h ==> {
        &&& pos.x + counter % size.w <= u16::MAX
        &&& pos.y + counter / size.w <= u16::MAX
    }
}

/// The pixel that the read of the rectangle gives next, if it is inside VRAM.
pub open spec fn popped(vram: Seq<u16>, pos: Position, size: Size, counter: u16) -> Option<u16> {
    if counter < size.w * size.h {
        let x = pos.x + counter % size.w;
        let y = pos.y + counter / size.w;
        if x < VRAM_WIDTH && y < VRAM_HEIGHT {
            Some(vram[y * VRAM_WIDTH + x])
        } else {
            None
        }
    } else {
        None
    }
}

/// Read the next pixel of the rectangle `pos`, `size` of VRAM (row after
/// row); `counter` counts the pixels read. Past the rectangle, or outside
/// VRAM, there is no pixel.
pub fn pop_pixel(vram: &[u16], pos: Position, size: Size, counter: &mut u16) -> (r: Option<u16>)
    requires
        vram@.len() == VRAM_LEN,
        pop_defined(pos, size, *old(counter)),
    ensures
        r == popped(vram@, pos, size, *old(counter)),
        *final(counter) == (if *old(counter) < size.w * size.h {
            (*old(counter) + 1) as u16
        } else {
            *old(counter)
        }),
{
    let total: u16 = size.w * size.h;
    if *counter < total {
        let x = (pos.x + *counter % size.w) as usize;
        let y = (pos.y + *counter / size.w) as usize;
        *counter = counter.saturating_add(1);
        if x < VRAM_WIDTH && y < VRAM_HEIGHT {
            return Some(vram[y * VRAM_WIDTH + x]);
        }
    }
    None
}

/// The triangles a polygon is drawn with: one for three vertices, two for a
/// quad (the second made of the last three vertices), none otherwise.
pub open spec fn triangles(v: Seq<Vertex>) -> Seq<[Vertex; 3]> {
    if v.len() == 3 {
        seq![[v[0], v[1], v[2]]]
    } else if v.len() == 4 {
        seq![[v[0], v[1], v[2]], [v[1], v[2], v[3]]]
    } else {
        Seq::empty()
    }
}

/// Split a polygon into the triangles that are drawn.
pub fn polygon_triangles(vertices: &[Vertex]) -> (r: Vec<[Vertex; 3]>)
    ensures
        r@ == triangles(vertices@),
{
    let mut r: Vec<[Vertex; 3]> = Vec::new();
    if vertices.len() == 3 {
        r.push([vertices[0], vertices[1], vertices[2]]);
    } else if vertices.len() == 4 {
        r.push([vertices[0], vertices[1], vertices[2]]);
        r.push([vertices[1], vertices[2], vertices[3]]);
    }
    proof {
        assert(r@ =~= triangles(vertices@));
    }
    r
}

/// Whether the copy of an uploaded rectangle stays in 16 bits.
pub open spec fn upload_defined(pos: Position, size: Size) -> bool {
    size.w > 0 && size.h > 0 ==> pos.x + size.w - 1 <= u16::MAX && pos.y + size.h - 1 <= u16::MAX
}

/// VRAM and the uploaded pixels after the pixels of the rectangle from number
/// `t` on (row after row) were copied: each pixel inside VRAM takes the next
/// uploaded pixel, or black when there is none left.
pub open spec fn uploaded_from(vram: Seq<u16>, data: Seq<u16>, pos: Position, size: Size, t: nat) -> (
    Seq<u16>,
    Seq<u16>,
)
    decreases size.w * size.h - t,
{
    if size.w == 0 || t >= size.w * size.h {
        (vram, data)
    } else {
        let x = pos.x + t % (size.w as nat);
        let y = pos.y + t / (size.w as nat);
        let idx = y * VRAM_WIDTH + x;
        if idx < vram.len() {
            let px = if data.len() > 0 {
                data[0]
            } else {
                0u16
            };
            let rest = if data.len() > 0 {
                data.drop_first()
            } else {
                data
            };
            uploaded_from(vram.update(idx, px), rest, pos, size, t + 1)
        } else {
            uploaded_from(vram, data, pos, size, t + 1)
        }
    }
}

/// Copy the uploaded pixels into the rectangle `pos`, `size` of VRAM, row
/// after row; pixels outside VRAM are skipped, and black is written when the
/// upload is short.
pub fn copy_vram_from_upload_buf(vram: &mut Vec<u16>, data: &mut VecDeque<u16>, pos: Position, size: Size)
    requires
        upload_defined(pos, size),
    ensures
        (final(vram)@, final(data)@) == uploaded_from(old(vram)@, old(data)@, pos, size, 0),
{
    let ghost full = uploaded_from(vram@, data@, pos, size, 0);
    let mut j: u16 = 0;
    while j < size.h
        invariant
            j <= size.h,
            upload_defined(pos, size),
            size.w > 0 ==> full == uploaded_from(vram@, data@, pos, size, (j * size.w) as nat),
            size.w == 0 ==> full == (vram@, data@),
        decreases size.h - j,
    {
        let mut i: u16 = 0;
        while i < size.w
            invariant
                i <= size.w,
                j < size.h,
                upload_defined(pos, size),
                full == uploaded_from(vram@, data@, pos, size, (j * size.w + i) as nat),
            decreases size.w - i,
        {
            let ghost t: nat = (j * size.w + i) as nat;
            proof {
                assert(t < size.w * size.h && t % (size.w as nat) == i && t / (size.w as nat) == j)
                    by (nonlinear_arith)
                    requires
                        t == j * size.w + i,
                        i < size.w,
                        j < size.h,
                ;
            }
            let x = pos.x + i;
            let y = pos.y + j;
            let idx = y as usize * VRAM_WIDTH + x as usize;
            if idx < vram.len() {
                // Set black pixels if buf somehow smaller
                let px = match data.pop_front() {
                    Some(p) => p,
                    None => 0u16,
                };
                vram.set(idx, px);
            }
            i = i + 1;
        }
        proof {
            assert((j + 1) * size.w == j * size.w + size.w) by (nonlinear_arith);
        }
        j = j + 1;
    }
}


/// A vertex moved by the drawing offset.
pub open spec fn moved(v: Location, off: Location) -> Location {
    Location { x: (v.x + off.x) as i16, y: (v.y + off.y) as i16 }
}

pub open spec fn min3(a: i16, b: i16, c: i16) -> i16 {
    let m = if a <= b { a } else { b };
    if m <= c { m } else { c }
}

pub open spec fn max3(a: i16, b: i16, c: i16) -> i16 {
    let m = if a >= b { a } else { b };
    if m >= c { m } else { c }
}

pub open spec fn clamped(v: i16, lo: i16, hi: i16) -> i16 {
    if v < lo {
        lo
    } else if v > hi {
        hi
    } else {
        v
    }
}

/// A triangle to rasterize: its vertices (moved by the drawing offset) and
/// its bounding box clamped to the drawing area.
pub struct Raster {
    pub a: Location,
    pub b: Location,
    pub c: Location,
    pub min_x: i16,
    pub max_x: i16,
    pub min_y: i16,
    pub max_y: i16,
}

pub open spec fn raster(area: (Position, Position), off: Location, v: [Vertex; 3]) -> Raster {
    let a = moved(v[0].location, off);
    let b = moved(v[1].location, off);
    let c = moved(v[2].location, off);
    Raster {
        a,
        b,
        c,
        min_x: clamped(min3(a.x, b.x, c.x), area.0.x as i16, area.1.x as i16),
        max_x: clamped(max3(a.x, b.x, c.x), area.0.x as i16, area.1.x as i16),
        min_y: clamped(min3(a.y, b.y, c.y), area.0.y as i16, area.1.y as i16),
        max_y: clamped(max3(a.y, b.y, c.y), area.0.y as i16, area.1.y as i16),
    }
}

pub open spec fn in_box(r: Raster, x: int, y: int) -> bool {
    r.min_x <= x <= r.max_x && r.min_y <= y <= r.max_y
}

/// Whether point `p` is inside the triangle, or on its edges (either winding).
pub open spec fn inside(r: Raster, p: Location) -> bool {
    let w0 = cross(r.b, r.c, p);
    let w1 = cross(r.c, r.a, p);
    let w2 = cross(r.a, r.b, p);
    (w0 >= 0 && w1 >= 0 && w2 >= 0) || (w0 <= 0 && w1 <= 0 && w2 <= 0)
}

/// Whether the pixel `x`, `y` of the box is painted.
pub open spec fn paints(r: Raster, x: int, y: int) -> bool {
    in_box(r, x, y) && inside(r, Location { x: x as i16, y: y as i16 })
}

pub open spec fn pixel_index(x: int, y: int) -> int {
    y * VRAM_WIDTH + x
}

/// Whether element `i` of VRAM is painted by a pixel before row `row`, or in
/// row `row` before column `col`.
pub open spec fn painted_upto(r: Raster, row: int, col: int, i: int) -> bool {
    exists|x: int, y: int|
        #[trigger] paints(r, x, y) && (y < row || (y == row && x < col)) && pixel_index(x, y) == i
}

/// Whether element `i` of VRAM is painted by the triangle.
pub open spec fn painted(r: Raster, i: int) -> bool {
    cross(r.a, r.b, r.c) != 0 && painted_upto(r, r.max_y + 1, r.min_x as int, i)
}

/// Whether pixel `x`, `y` of the box can be drawn: its weights fit in 16
/// bits, and if it is inside the triangle its index is in VRAM.
pub open spec fn pixel_fits(r: Raster, len: nat, x: int, y: int) -> bool {
    let p = Location { x: x as i16, y: y as i16 };
    &&& cross_fits(r.b, r.c, p)
    &&& cross_fits(r.c, r.a, p)
    &&& cross_fits(r.a, r.b, p)
    &&& inside(r, p) ==> 0 <= x && 0 <= y && pixel_index(x, y) < len
}

/// Whether drawing the triangle stays within 16 bits and within VRAM.
pub open spec fn triangle_defined(len: nat, area: (Position, Position), off: Location, v: [Vertex; 3]) -> bool {
    let r = raster(area, off, v);
    &&& forall|k: int| 0 <= k < 3 ==> fits_i16(v[k].location.x + off.x) && fits_i16(v[k].location.y + off.y)
    &&& area.0.x as i16 <= area.1.x as i16
    &&& area.0.y as i16 <= area.1.y as i16
    &&& cross_fits(r.a, r.b, r.c)
    &&& cross(r.a, r.b, r.c) != 0 ==> forall|x: int, y: int| #[trigger] in_box(r, x, y) ==> pixel_fits(r, len, x, y)
}

fn min_i16(a: i16, b: i16) -> (r: i16)
    ensures
        r == (if a <= b { a } else { b }),
{
    if a <= b { a } else { b }
}

fn max_i16(a: i16, b: i16) -> (r: i16)
    ensures
        r == (if a >= b { a } else { b }),
{
    if a >= b { a } else { b }
}

fn clamp_i16(v: i16, lo: i16, hi: i16) -> (r: i16)
    requires
        lo <= hi,
    ensures
        r == clamped(v, lo, hi),
{
    if v < lo {
        lo
    } else if v > hi {
        hi
    } else {
        v
    }
}

/// Rasterize a triangle in white: every pixel of its bounding box (clamped to
/// the drawing area) that lies inside the triangle, or on its edges, is
/// painted; a triangle of no area paints nothing.
pub fn draw_triangle(vram: &mut Vec<u16>, draw_area: (Position, Position), draw_offset: Location, vertices: [Vertex; 3])
    requires
        triangle_defined(old(vram)@.len(), draw_area, draw_offset, vertices),
    ensures
        final(vram)@ == Seq::new(
            old(vram)@.len(),
            |i: int|
                if painted(raster(draw_area, draw_offset, vertices), i) {
                    0xFFFFu16
                } else {
                    old(vram)@[i]
                },
        ),
{
    let ghost r = raster(draw_area, draw_offset, vertices);
    proof {
        assert(fits_i16(vertices[0].location.x + draw_offset.x) && fits_i16(vertices[0].location.y + draw_offset.y));
        assert(fits_i16(vertices[1].location.x + draw_offset.x) && fits_i16(vertices[1].location.y + draw_offset.y));
        assert(fits_i16(vertices[2].location.x + draw_offset.x) && fits_i16(vertices[2].location.y + draw_offset.y));
    }
    let v0 = Location { x: vertices[0].location.x + draw_offset.x, y: vertices[0].location.y + draw_offset.y };
    let v1 = Location { x: vertices[1].location.x + draw_offset.x, y: vertices[1].location.y + draw_offset.y };
    let v2 = Location { x: vertices[2].location.x + draw_offset.x, y: vertices[2].location.y + draw_offset.y };

    // bounding box
    let min_x = clamp_i16(min_i16(min_i16(v0.x, v1.x), v2.x), draw_area.0.x as i16, draw_area.1.x as i16);
    let max_x = clamp_i16(max_i16(max_i16(v0.x, v1.x), v2.x), draw_area.0.x as i16, draw_area.1.x as i16);
    let min_y = clamp_i16(min_i16(min_i16(v0.y, v1.y), v2.y), draw_area.0.y as i16, draw_area.1.y as i16);
    let max_y = clamp_i16(max_i16(max_i16(v0.y, v1.y), v2.y), draw_area.0.y as i16, draw_area.1.y as i16);
    assert(r.a == v0 && r.b == v1 && r.c == v2);
    assert(r.min_x == min_x && r.max_x == max_x && r.min_y == min_y && r.max_y == max_y);

    // total signed area
    let area = cross2(v0, v1, v2);
    if area == 0 {
        assert(old(vram)@ =~= Seq::new(
            old(vram)@.len(),
            |i: int| if painted(r, i) { 0xFFFFu16 } else { old(vram)@[i] },
        ));
        return;
    }
    let ghost len = vram@.len();
    let mut y: i32 = min_y as i32;
    while y <= max_y as i32
        invariant
            r == raster(draw_area, draw_offset, vertices),
            triangle_defined(len, draw_area, draw_offset, vertices),
            cross(r.a, r.b, r.c) != 0,
            r.a == v0 && r.b == v1 && r.c == v2,
            r.min_x == min_x && r.max_x == max_x && r.min_y == min_y && r.max_y == max_y,
            min_y <= y <= max_y + 1,
            vram@.len() == len,
            len == old(vram)@.len(),
            forall|i: int| 0 <= i < len ==> #[trigger] vram@[i] == (if painted_upto(r, y as int, min_x as int, i) {
                0xFFFFu16
            } else {
                old(vram)@[i]
            }),
        decreases max_y - y + 1,
    {
        let mut x: i32 = min_x as i32;
        while x <= max_x as i32
            invariant
                r == raster(draw_area, draw_offset, vertices),
                triangle_defined(len, draw_area, draw_offset, vertices),
                cross(r.a, r.b, r.c) != 0,
                r.a == v0 && r.b == v1 && r.c == v2,
                r.min_x == min_x && r.max_x == max_x && r.min_y == min_y && r.max_y == max_y,
                min_y <= y <= max_y,
                min_x <= x <= max_x + 1,
                vram@.len() == len,
                len == old(vram)@.len(),
                forall|i: int| 0 <= i < len ==> #[trigger] vram@[i] == (if painted_upto(r, y as int, x as int, i) {
                    0xFFFFu16
                } else {
                    old(vram)@[i]
                }),
            decreases max_x - x + 1,
        {
            let p = Location { x: x as i16, y: y as i16 };
            proof {
                assert(in_box(r, x as int, y as int));
            }
            // barycentric weights
            let w0 = cross2(v1, v2, p);
            let w1 = cross2(v2, v0, p);
            let w2 = cross2(v0, v1, p);

            // inside test, both counter and clockwise (no backface culling)
            let is_inside = (w0 >= 0 && w1 >= 0 && w2 >= 0) || (w0 <= 0 && w1 <= 0 && w2 <= 0);
            let ghost before = vram@;
            if is_inside {
                assert(paints(r, x as int, y as int));
                let idx = y as usize * VRAM_WIDTH + x as usize;
                vram.set(idx, 0xFFFF);
                proof {
                    assert forall|i: int| 0 <= i < len implies #[trigger] vram@[i] == (if painted_upto(r, y as int, x + 1, i) {
                        0xFFFFu16
                    } else {
                        old(vram)@[i]
                    }) by {
                        if i == idx {
                            assert(painted_upto(r, y as int, x + 1, i));
                        } else {
                            if painted_upto(r, y as int, x + 1, i) {
                                let (x1, y1) = choose|x1: int, y1: int| #[trigger] paints(r, x1, y1) && (y1 < y || (y1 == y && x1 < x + 1)) && pixel_index(x1, y1) == i;
                                assert(!(y1 == y && x1 == x));
                                assert(painted_upto(r, y as int, x as int, i));
                            }
                            if painted_upto(r, y as int, x as int, i) {
                                let (x1, y1) = choose|x1: int, y1: int| #[trigger] paints(r, x1, y1) && (y1 < y || (y1 == y && x1 < x)) && pixel_index(x1, y1) == i;
                                assert(painted_upto(r, y as int, x + 1, i));
                            }
                        }
                    }
                }
            } else {
                proof {
                    assert(!paints(r, x as int, y as int));
                    assert forall|i: int| 0 <= i < len implies #[trigger] vram@[i] == (if painted_upto(r, y as int, x + 1, i) {
                        0xFFFFu16
                    } else {
                        old(vram)@[i]
                    }) by {
                        if painted_upto(r, y as int, x + 1, i) {
                            let (x1, y1) = choose|x1: int, y1: int| #[trigger] paints(r, x1, y1) && (y1 < y || (y1 == y && x1 < x + 1)) && pixel_index(x1, y1) == i;
                            assert(!(y1 == y && x1 == x));
                            assert(painted_upto(r, y as int, x as int, i));
                        }
                        if painted_upto(r, y as int, x as int, i) {
                            let (x1, y1) = choose|x1: int, y1: int| #[trigger] paints(r, x1, y1) && (y1 < y || (y1 == y && x1 < x)) && pixel_index(x1, y1) == i;
                            assert(painted_upto(r, y as int, x + 1, i));
                        }
                    }
                }
            }
            x = x + 1;
        }
        proof {
            assert forall|i: int| 0 <= i < len implies #[trigger] vram@[i] == (if painted_upto(r, y + 1, min_x as int, i) {
                0xFFFFu16
            } else {
                old(vram)@[i]
            }) by {
                if painted_upto(r, y as int, x as int, i) {
                    let (x1, y1) = choose|x1: int, y1: int| #[trigger] paints(r, x1, y1) && (y1 < y || (y1 == y && x1 < x)) && pixel_index(x1, y1) == i;
                    assert(painted_upto(r, y + 1, min_x as int, i));
                }
                if painted_upto(r, y + 1, min_x as int, i) {
                    let (x1, y1) = choose|x1: int, y1: int| #[trigger] paints(r, x1, y1) && (y1 < y + 1 || (y1 == y + 1 && x1 < min_x)) && pixel_index(x1, y1) == i;
                    assert(painted_upto(r, y as int, x as int, i));
                }
            }
        }
        y = y + 1;
    }
    proof {
        assert(vram@ =~= Seq::new(
            old(vram)@.len(),
            |i: int| if painted(r, i) { 0xFFFFu16 } else { old(vram)@[i] },
        ));
    }
}


fn in_i16(x: i32) -> (r: bool)
    ensures
        r == fits_i16(x as int),
{
    -32768 <= x && x <= 32767
}

/// The 2D cross product, if its 16-bit arithmetic stays in range.
fn cross_checked(a: Location, b: Location, p: Location) -> (r: Option<i16>)
    ensures
        r == (if cross_fits(a, b, p) {
            Some(cross(a, b, p) as i16)
        } else {
            None
        }),
{
    let dx: i32 = p.x as i32 - a.x as i32;
    let ey: i32 = b.y as i32 - a.y as i32;
    let dy: i32 = p.y as i32 - a.y as i32;
    let ex: i32 = b.x as i32 - a.x as i32;
    if !(in_i16(dx) && in_i16(ey) && in_i16(dy) && in_i16(ex)) {
        return None;
    }
    proof {
        assert(-32768 * 32768 <= dx * ey <= 32768 * 32768) by (nonlinear_arith)
            requires
                -32768 <= dx <= 32767,
                -32768 <= ey <= 32767,
        ;
        assert(-32768 * 32768 <= dy * ex <= 32768 * 32768) by (nonlinear_arith)
            requires
                -32768 <= dy <= 32767,
                -32768 <= ex <= 32767,
        ;
    }
    let m1: i32 = dx * ey;
    let m2: i32 = dy * ex;
    if !(in_i16(m1) && in_i16(m2) && in_i16(m1 - m2)) {
        return None;
    }
    Some((m1 - m2) as i16)
}

/// Whether [`draw_triangle`] can draw the triangle: the check of its
/// precondition.
pub fn triangle_fits(len: usize, draw_area: (Position, Position), draw_offset: Location, vertices: [Vertex; 3]) -> (r: bool)
    ensures
        r == triangle_defined(len as nat, draw_area, draw_offset, vertices),
{
    let ghost r = raster(draw_area, draw_offset, vertices);
    let mut k: usize = 0;
    while k < 3
        invariant
            k <= 3,
            forall|j: int| 0 <= j < k ==> fits_i16(vertices[j].location.x + draw_offset.x) && fits_i16(
                vertices[j].location.y + draw_offset.y,
            ),
        decreases 3 - k,
    {
        if !(in_i16(vertices[k].location.x as i32 + draw_offset.x as i32) && in_i16(
            vertices[k].location.y as i32 + draw_offset.y as i32,
        )) {
            return false;
        }
        k = k + 1;
    }
    if !(draw_area.0.x as i16 <= draw_area.1.x as i16 && draw_area.0.y as i16 <= draw_area.1.y as i16) {
        return false;
    }
    let v0 = Location { x: vertices[0].location.x + draw_offset.x, y: vertices[0].location.y + draw_offset.y };
    let v1 = Location { x: vertices[1].location.x + draw_offset.x, y: vertices[1].location.y + draw_offset.y };
    let v2 = Location { x: vertices[2].location.x + draw_offset.x, y: vertices[2].location.y + draw_offset.y };
    let min_x = clamp_i16(min_i16(min_i16(v0.x, v1.x), v2.x), draw_area.0.x as i16, draw_area.1.x as i16);
    let max_x = clamp_i16(max_i16(max_i16(v0.x, v1.x), v2.x), draw_area.0.x as i16, draw_area.1.x as i16);
    let min_y = clamp_i16(min_i16(min_i16(v0.y, v1.y), v2.y), draw_area.0.y as i16, draw_area.1.y as i16);
    let max_y = clamp_i16(max_i16(max_i16(v0.y, v1.y), v2.y), draw_area.0.y as i16, draw_area.1.y as i16);
    assert(r.a == v0 && r.b == v1 && r.c == v2);
    assert(r.min_x == min_x && r.max_x == max_x && r.min_y == min_y && r.max_y == max_y);
    let area = match cross_checked(v0, v1, v2) {
        Some(a) => a,
        None => return false,
    };
    if area == 0 {
        return true;
    }
    assert(min_x <= max_x);
    let mut y: i32 = min_y as i32;
    while y <= max_y as i32
        invariant
            r == raster(draw_area, draw_offset, vertices),
            r.a == v0 && r.b == v1 && r.c == v2,
            r.min_x == min_x && r.max_x == max_x && r.min_y == min_y && r.max_y == max_y,
            min_y <= y <= max_y + 1,
            min_x <= max_x,
            cross_fits(r.a, r.b, r.c),
            cross(r.a, r.b, r.c) != 0,
            forall|x1: int, y1: int| #[trigger] in_box(r, x1, y1) && y1 < y ==> pixel_fits(r, len as nat, x1, y1),
        decreases max_y - y + 1,
    {
        let mut x: i32 = min_x as i32;
        while x <= max_x as i32
            invariant
                r == raster(draw_area, draw_offset, vertices),
                r.a == v0 && r.b == v1 && r.c == v2,
                r.min_x == min_x && r.max_x == max_x && r.min_y == min_y && r.max_y == max_y,
                min_y <= y <= max_y,
                min_x <= x <= max_x + 1,
                cross_fits(r.a, r.b, r.c),
                cross(r.a, r.b, r.c) != 0,
                forall|x1: int, y1: int| #[trigger] in_box(r, x1, y1) && (y1 < y || (y1 == y && x1 < x)) ==> pixel_fits(r, len as nat, x1, y1),
            decreases max_x - x + 1,
        {
            let p = Location { x: x as i16, y: y as i16 };
            proof {
                assert(in_box(r, x as int, y as int));
            }
            let w0 = match cross_checked(v1, v2, p) {
                Some(w) => w,
                None => return false,
            };
            let w1 = match cross_checked(v2, v0, p) {
                Some(w) => w,
                None => return false,
            };
            let w2 = match cross_checked(v0, v1, p) {
                Some(w) => w,
                None => return false,
            };
            let is_inside = (w0 >= 0 && w1 >= 0 && w2 >= 0) || (w0 <= 0 && w1 <= 0 && w2 <= 0);
            if is_inside {
                if !(x >= 0 && y >= 0 && (y as usize) < len / VRAM_WIDTH + 1 && (y as usize) * VRAM_WIDTH + (x as usize) < len) {
                    proof {
                        assert(!pixel_fits(r, len as nat, x as int, y as int));
                    }
                    return false;
                }
            }
            proof {
                assert(pixel_fits(r, len as nat, x as int, y as int));
            }
            x = x + 1;
        }
        y = y + 1;
    }
    true
}


proof fn lemma_cross_swap(a: Location, b: Location, p: Location)
    ensures
        cross(b, a, p) == -cross(a, b, p),
        cross(b, p, a) == cross(a, b, p),
{
    let (ax, ay, bx, by, px, py) = (a.x as int, a.y as int, b.x as int, b.y as int, p.x as int, p.y as int);
    assert((px - bx) * (ay - by) - (py - by) * (ax - bx) == -((px - ax) * (by - ay) - (py - ay) * (bx - ax)))
        by (nonlinear_arith);
    assert((ax - bx) * (py - by) - (ay - by) * (px - bx) == (px - ax) * (by - ay) - (py - ay) * (bx - ax))
        by (nonlinear_arith);
}

/// Two rasters of the same box that paint the same pixels paint the same
/// VRAM elements.
proof fn lemma_same_paints(r: Raster, q: Raster, i: int)
    requires
        r.min_x == q.min_x,
        r.max_x == q.max_x,
        r.min_y == q.min_y,
        r.max_y == q.max_y,
        cross(r.a, r.b, r.c) != 0 <==> cross(q.a, q.b, q.c) != 0,
        forall|p: Location| inside(r, p) == inside(q, p),
    ensures
        painted(r, i) == painted(q, i),
{
    let (row, col) = (r.max_y + 1, r.min_x as int);
    if painted_upto(r, row, col, i) {
        let (x, y) = choose|x: int, y: int|
            #[trigger] paints(r, x, y) && (y < row || (y == row && x < col)) && pixel_index(x, y) == i;
        assert(paints(q, x, y) == paints(r, x, y));
    }
    if painted_upto(q, row, col, i) {
        let (x, y) = choose|x: int, y: int|
            #[trigger] paints(q, x, y) && (y < row || (y == row && x < col)) && pixel_index(x, y) == i;
        assert(paints(q, x, y) == paints(r, x, y));
    }
}

/// The pixels a triangle paints do not depend on the order of its vertices
/// (there is no back-face culling): swapping two vertices, or rotating the
/// three, paints the same VRAM elements. Every order of the three vertices
/// is reached by these two.
pub proof fn law_triangle_vertex_order(area: (Position, Position), off: Location, v: [Vertex; 3], i: int)
    ensures
        painted(raster(area, off, v), i) == painted(raster(area, off, [v[1], v[0], v[2]]), i),
        painted(raster(area, off, v), i) == painted(raster(area, off, [v[1], v[2], v[0]]), i),
{
    let r = raster(area, off, v);
    let q = raster(area, off, [v[1], v[0], v[2]]);
    let u = raster(area, off, [v[1], v[2], v[0]]);
    assert(q.a == r.b && q.b == r.a && q.c == r.c);
    assert(u.a == r.b && u.b == r.c && u.c == r.a);
    lemma_cross_swap(r.a, r.b, r.c);
    lemma_cross_swap(r.b, r.c, r.a);
    assert forall|p: Location| inside(r, p) == inside(q, p) by {
        lemma_cross_swap(r.a, r.b, p);
        lemma_cross_swap(r.b, r.c, p);
        lemma_cross_swap(r.c, r.a, p);
    }
    assert forall|p: Location| inside(r, p) == inside(u, p) by {
    }
    lemma_same_paints(r, q, i);
    lemma_same_paints(r, u, i);
}

} // verus!
