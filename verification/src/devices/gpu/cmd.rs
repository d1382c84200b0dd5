use vstd::prelude::*;

use smallvec::SmallVec;

use super::gp0::vertex_room;
use super::types::{Clut, Color, Position, Size, UV};

verus! {

pub const POLYGON_MAX_SIZE: usize = 4;
pub const POLYLINE_VERTICES_HARD_LIMIT: usize = 256;

/// The word that ends a polyline.
pub const TERMINATOR_CMD: u32 = 0x5000_5000;


/// A drawing command being gathered.
pub enum Packet {
    Polygon(PolygonPacket),
    Line(LinePacket),
    Rect(RectPacket),
}

/// How many more words a command takes: a count, or words until a terminator.
#[derive(Debug, Clone, Copy, PartialEq, Eq, Structural)]
pub enum Remain {
    Count(usize),
    Terminator(u32),
}

/// A vertex whose parts arrive in separate words.
#[derive(Debug, Default, Clone, Copy, PartialEq, Eq, Structural)]
pub struct VertexPacket {
    pub pos: Option<Position>,
    pub color: Option<Color>,
    pub uv: Option<UV>,
}

/// Vertices of a polygon, kept inline up to a quad.
#[verifier::external_body]
pub struct PolygonVertexList {
    inner: SmallVec<[VertexPacket; POLYGON_MAX_SIZE]>,
}

/// Vertices of a line or polyline.
#[verifier::external_body]
pub struct LineVertexList {
    inner: SmallVec<[VertexPacket; POLYLINE_VERTICES_HARD_LIMIT]>,
}

/// The vertices that a polygon vertex list holds, in order.
pub uninterp spec fn polygon_vertex_list(v: PolygonVertexList) -> Seq<VertexPacket>;

/// The vertices that a line vertex list holds, in order.
pub uninterp spec fn line_vertex_list(v: LineVertexList) -> Seq<VertexPacket>;

/// `SmallVec::new`: an empty list.
#[verifier::external_body]
fn polygon_list_new() -> (r: PolygonVertexList)
    ensures
        polygon_vertex_list(r) == Seq::<VertexPacket>::empty(),
{
    PolygonVertexList { inner: SmallVec::new() }
}

/// `SmallVec::push`: append a vertex. It panics only when the byte size of
/// the grown capacity overflows, which the room left by `vertex_room` rules
/// out (a failed allocation aborts).
#[verifier::external_body]
fn polygon_list_push(v: &mut PolygonVertexList, x: VertexPacket)
    requires
        vertex_room(polygon_vertex_list(*old(v)).len()),
    ensures
        polygon_vertex_list(*final(v)) == polygon_vertex_list(*old(v)).push(x),
{
    v.inner.push(x)
}

/// `SmallVec::last_mut` written through: replace the last vertex.
#[verifier::external_body]
fn polygon_list_set_last(v: &mut PolygonVertexList, x: VertexPacket)
    requires
        polygon_vertex_list(*old(v)).len() > 0,
    ensures
        polygon_vertex_list(*final(v)) == polygon_vertex_list(*old(v)).update(
            polygon_vertex_list(*old(v)).len() - 1,
            x,
        ),
{
    if let Some(last) = v.inner.last_mut() {
        *last = x;
    }
}

/// `SmallVec::last`: a copy of the last vertex, if any.
#[verifier::external_body]
fn polygon_list_last(v: &PolygonVertexList) -> (r: Option<VertexPacket>)
    ensures
        r == (if polygon_vertex_list(*v).len() > 0 {
            Some(polygon_vertex_list(*v).last())
        } else {
            None
        }),
{
    v.inner.last().copied()
}

/// `SmallVec::new`: an empty list.
#[verifier::external_body]
fn line_list_new() -> (r: LineVertexList)
    ensures
        line_vertex_list(r) == Seq::<VertexPacket>::empty(),
{
    LineVertexList { inner: SmallVec::new() }
}

/// `SmallVec::push`: append a vertex. It panics only when the byte size of
/// the grown capacity overflows, which the room left by `vertex_room` rules
/// out (a failed allocation aborts).
#[verifier::external_body]
fn line_list_push(v: &mut LineVertexList, x: VertexPacket)
    requires
        vertex_room(line_vertex_list(*old(v)).len()),
    ensures
        line_vertex_list(*final(v)) == line_vertex_list(*old(v)).push(x),
{
    v.inner.push(x)
}

/// `SmallVec::last_mut` written through: replace the last vertex.
#[verifier::external_body]
fn line_list_set_last(v: &mut LineVertexList, x: VertexPacket)
    requires
        line_vertex_list(*old(v)).len() > 0,
    ensures
        line_vertex_list(*final(v)) == line_vertex_list(*old(v)).update(
            line_vertex_list(*old(v)).len() - 1,
            x,
        ),
{
    if let Some(last) = v.inner.last_mut() {
        *last = x;
    }
}

/// `SmallVec::last`: a copy of the last vertex, if any.
#[verifier::external_body]
fn line_list_last(v: &LineVertexList) -> (r: Option<VertexPacket>)
    ensures
        r == (if line_vertex_list(*v).len() > 0 {
            Some(line_vertex_list(*v).last())
        } else {
            None
        }),
{
    v.inner.last().copied()
}

/// A polygon being gathered.
pub struct PolygonPacket {
    pub quad: bool,
    pub gouraud: bool,
    pub textured: bool,
    pub color: Option<Color>,
    pub vertices: PolygonVertexList,
    pub clut: Option<Clut>,
    pub tpage: Option<()>,
}

/// A line or polyline being gathered.
pub struct LinePacket {
    pub gouraud: bool,
    pub color: Option<Color>,
    pub vertices: LineVertexList,
}

/// A rectangle being gathered.
#[derive(Debug, Clone, Copy)]
pub struct RectPacket {
    pub textured: bool,
    pub color: Color,
    pub pos: Option<Position>,
    pub uv: Option<UV>,
    pub clut: Option<Clut>,
    pub size: Option<Size>,
}

pub open spec fn color_of(cmd: u32) -> Color {
    Color { r: cmd as u8, g: (cmd >> 8u32) as u8, b: (cmd >> 16u32) as u8 }
}

pub open spec fn pos_of(cmd: u32) -> Position {
    Position { x: (cmd as u16) as i16, y: ((cmd >> 16u32) as u16) as i16 }
}

pub open spec fn size_of(cmd: u32) -> Size {
    Size { w: cmd as u16, h: (cmd >> 16u32) as u16 }
}

/// Texture coordinates of a texture word: U in the low byte, V in the next.
pub open spec fn uv_of(cmd: u32) -> UV {
    UV { u: cmd as u8, v: (cmd >> 8u32) as u8 }
}

/// Color lookup table of a texture word: X in units of 16 pixels in bits
/// 16..22, Y in bits 22..31.
pub open spec fn clut_of(cmd: u32) -> Clut {
    Clut { x: (((cmd >> 16u32) & 0x3Fu32) << 4u32) as u16, y: ((cmd >> 22u32) & 0x1FFu32) as u16 }
}

fn parse_color(cmd: u32) -> (r: Color)
    ensures
        r == color_of(cmd),
{
    Color { r: cmd as u8, g: (cmd >> 8u32) as u8, b: (cmd >> 16u32) as u8 }
}

fn parse_pos(cmd: u32) -> (r: Position)
    ensures
        r == pos_of(cmd),
{
    Position { x: (cmd as u16) as i16, y: ((cmd >> 16u32) as u16) as i16 }
}

fn parse_size(cmd: u32) -> (r: Size)
    ensures
        r == size_of(cmd),
{
    Size { w: cmd as u16, h: (cmd >> 16u32) as u16 }
}

fn parse_uv(cmd: u32) -> (r: UV)
    ensures
        r == uv_of(cmd),
{
    UV { u: cmd as u8, v: (cmd >> 8u32) as u8 }
}

fn parse_clut(cmd: u32) -> (r: Clut)
    ensures
        r == clut_of(cmd),
{
    Clut { x: (((cmd >> 16u32) & 0x3Fu32) << 4u32) as u16, y: ((cmd >> 22u32) & 0x1FFu32) as u16 }
}

/// The vertex that carries the color of the first word of a shaded primitive.
pub open spec fn colored_vertex(cmd: u32) -> VertexPacket {
    VertexPacket { pos: None, color: Some(color_of(cmd)), uv: None }
}

/// The words a polygon takes after its first one.
pub open spec fn polygon_words(quad: bool, gouraud: bool, textured: bool) -> usize {
    match (quad, gouraud, textured) {
        // 3 vertices
        (false, false, false) => 3,
        // 3 vertices + 2 colors
        (false, true, false) => 5,
        // 3 vertices + 3 uv-s
        (false, false, true) => 6,
        // 3 vertices + 2 colors + 3 uv-s
        (false, true, true) => 8,
        // 4 vertices
        (true, false, false) => 4,
        // 4 vertices + 3 colors
        (true, true, false) => 7,
        // 4 vertices + 4 uv-s
        (true, false, true) => 8,
        // 4 vertices + 3 colors + 4 uv-s
        (true, true, true) => 11,
    }
}

/// A vertex after it took a word: its color (for a shaded primitive), then
/// its position, then (for a textured one) its texture coordinates.
pub open spec fn filled(v: VertexPacket, gouraud: bool, textured: bool, cmd: u32) -> VertexPacket {
    if gouraud && v.color is None {
        VertexPacket { color: Some(color_of(cmd)), ..v }
    } else if v.pos is None {
        VertexPacket { pos: Some(pos_of(cmd)), ..v }
    } else if textured && v.uv is None {
        VertexPacket { uv: Some(uv_of(cmd)), ..v }
    } else {
        v
    }
}

/// A vertex list after a word: the last vertex takes it (its color, for a
/// shaded primitive, then its position, then for a textured primitive its
/// texture coordinates), or a new vertex starts with it.
pub open spec fn vertices_after(vs: Seq<VertexPacket>, gouraud: bool, textured: bool, cmd: u32) -> Seq<VertexPacket> {
    let fill = |v: VertexPacket| filled(v, gouraud, textured, cmd);
    let takes = |v: VertexPacket| (gouraud && v.color is None) || v.pos is None || (textured && v.uv is None);
    if vs.len() > 0 && takes(vs.last()) {
        vs.update(vs.len() - 1, fill(vs.last()))
    } else {
        vs.push(fill(VertexPacket { pos: None, color: None, uv: None }))
    }
}

/// Take the color, then the position, then the texture coordinates of the
/// last vertex (or start a new one).
fn vertex_step(last: Option<VertexPacket>, gouraud: bool, textured: bool, cmd: u32) -> (r: (bool, VertexPacket))
    ensures
        ({
            let takes = |v: VertexPacket| (gouraud && v.color is None) || v.pos is None || (textured && v.uv is None);
            let fill = |v: VertexPacket| filled(v, gouraud, textured, cmd);
            match last {
                Some(v) if takes(v) => r == (false, fill(v)),
                _ => r == (true, fill(VertexPacket { pos: None, color: None, uv: None })),
            }
        }),
{
    let (fresh, v) = match last {
        Some(v) if (gouraud && v.color.is_none()) || v.pos.is_none() || (textured && v.uv.is_none()) => (false, v),
        _ => (true, VertexPacket { pos: None, color: None, uv: None }),
    };
    if gouraud && v.color.is_none() {
        (fresh, VertexPacket { color: Some(parse_color(cmd)), ..v })
    } else if v.pos.is_none() {
        (fresh, VertexPacket { pos: Some(parse_pos(cmd)), ..v })
    } else if textured && v.uv.is_none() {
        (fresh, VertexPacket { uv: Some(parse_uv(cmd)), ..v })
    } else {
        (fresh, v)
    }
}

impl PolygonPacket {
    pub closed spec fn vertices_model(&self) -> Seq<VertexPacket> {
        polygon_vertex_list(self.vertices)
    }

    /// Start a polygon from its first word: the flags, and the color (of the
    /// whole polygon, or of its first vertex when shaded).
    pub fn init(cmd: u32) -> (r: (Self, Remain))
        ensures
            r.0.quad == ((cmd >> 24u32) as u8 & 0x08 != 0),
            r.0.gouraud == ((cmd >> 24u32) as u8 & 0x10 != 0),
            r.0.textured == ((cmd >> 24u32) as u8 & 0x04 != 0),
            r.0.color == (if r.0.gouraud { None } else { Some(color_of(cmd)) }),
            r.0.vertices_model() == (if r.0.gouraud {
                seq![colored_vertex(cmd)]
            } else {
                Seq::empty()
            }),
            r.0.clut is None,
            r.0.tpage is None,
            r.1 == Remain::Count(polygon_words(r.0.quad, r.0.gouraud, r.0.textured)),
    {
        let op: u8 = (cmd >> 24u32) as u8;
        let quad = (op & 0x08) != 0;
        let gouraud = (op & 0x10) != 0;
        let textured = (op & 0x04) != 0;

        let mut vertices = polygon_list_new();
        let color = parse_color(cmd);
        let color = if !gouraud {
            Some(color)
        } else {
            polygon_list_push(&mut vertices, VertexPacket { pos: None, color: Some(color), uv: None });
            None
        };

        // The first color is in initial word
        let more = Remain::Count(
            match (quad, gouraud, textured) {
                (false, false, false) => 3,
                (false, true, false) => 5,
                (false, false, true) => 6,
                (false, true, true) => 8,
                (true, false, false) => 4,
                (true, true, false) => 7,
                (true, false, true) => 8,
                (true, true, true) => 11,
            },
        );
        (PolygonPacket { quad, gouraud, textured, color, vertices, clut: None, tpage: None }, more)
    }

    /// Give the next word to the polygon.
    pub fn push_cmd(&mut self, cmd: u32)
        requires
            vertex_room(old(self).vertices_model().len()),
        ensures
            final(self).vertices_model() == vertices_after(
                old(self).vertices_model(),
                old(self).gouraud,
                old(self).textured,
                cmd,
            ),
            final(self).quad == old(self).quad,
            final(self).gouraud == old(self).gouraud,
            final(self).textured == old(self).textured,
            final(self).color == old(self).color,
            final(self).clut == old(self).clut,
            final(self).tpage == old(self).tpage,
    {
        let last = polygon_list_last(&self.vertices);
        let (fresh, v) = vertex_step(last, self.gouraud, self.textured, cmd);
        if fresh {
            polygon_list_push(&mut self.vertices, v);
        } else {
            polygon_list_set_last(&mut self.vertices, v);
        }
    }
}

impl LinePacket {
    pub closed spec fn vertices_model(&self) -> Seq<VertexPacket> {
        line_vertex_list(self.vertices)
    }

    /// Start a line from its first word: the flags, and the color (of the
    /// whole line, or of its first vertex when shaded). A polyline takes words
    /// until the terminator.
    pub fn init(cmd: u32) -> (r: (Self, Remain))
        ensures
            r.0.gouraud == ((cmd >> 24u32) as u8 & 0x10 != 0),
            r.0.color == (if r.0.gouraud { None } else { Some(color_of(cmd)) }),
            r.0.vertices_model() == (if r.0.gouraud {
                seq![colored_vertex(cmd)]
            } else {
                Seq::empty()
            }),
            r.1 == (if (cmd >> 24u32) as u8 & 0x08 != 0 {
                Remain::Terminator(TERMINATOR_CMD)
            } else if r.0.gouraud {
                Remain::Count(3)
            } else {
                Remain::Count(2)
            }),
    {
        let op: u8 = (cmd >> 24u32) as u8;
        let polyline = (op & 0x08) != 0;
        let gouraud = (op & 0x10) != 0;

        let mut vertices = line_list_new();
        let color = parse_color(cmd);
        let color = if !gouraud {
            Some(color)
        } else {
            line_list_push(&mut vertices, VertexPacket { pos: None, color: Some(color), uv: None });
            None
        };

        // The first color is in initial word
        let more = if polyline {
            // Until terminator
            Remain::Terminator(TERMINATOR_CMD)
        } else if gouraud {
            // 2 vertices + color
            Remain::Count(3)
        } else {
            // 2 vertices
            Remain::Count(2)
        };
        (LinePacket { gouraud, color, vertices }, more)
    }

    /// Give the next word to the line.
    pub fn push_cmd(&mut self, cmd: u32)
        requires
            vertex_room(old(self).vertices_model().len()),
        ensures
            final(self).vertices_model() == vertices_after(
                old(self).vertices_model(),
                old(self).gouraud,
                false,
                cmd,
            ),
            final(self).gouraud == old(self).gouraud,
            final(self).color == old(self).color,
    {
        let last = line_list_last(&self.vertices);
        let (fresh, v) = vertex_step(last, self.gouraud, false, cmd);
        if fresh {
            line_list_push(&mut self.vertices, v);
        } else {
            line_list_set_last(&mut self.vertices, v);
        }
    }
}

/// The size of a rectangle fixed by its opcode, if any.
pub open spec fn fixed_size(op: u8) -> Option<Size> {
    let s = op & 0x18;
    if s == 0x08 {
        Some(Size { w: 1, h: 1 })
    } else if s == 0x10 {
        Some(Size { w: 8, h: 8 })
    } else if s == 0x18 {
        Some(Size { w: 16, h: 16 })
    } else {
        None
    }
}

impl RectPacket {
    /// Start a rectangle from its first word: its color, whether it is
    /// textured, and its size when the opcode fixes it.
    pub fn init(cmd: u32) -> (r: (Self, Remain))
        ensures
            r.0.textured == ((cmd >> 24u32) as u8 & 0x04 != 0),
            r.0.color == color_of(cmd),
            r.0.pos is None,
            r.0.uv is None,
            r.0.clut is None,
            r.0.size == fixed_size((cmd >> 24u32) as u8),
            r.1 == Remain::Count(
                ((if r.0.textured { 2int } else { 1int }) + (if r.0.size is None { 1int } else { 0int })) as usize,
            ),
    {
        let op: u8 = (cmd >> 24u32) as u8;
        let textured = (op & 0x04) != 0;
        let color = parse_color(cmd);
        let s: u8 = op & 0x18;
        let size = if s == 0x00 {
            // Variable sized
            None
        } else if s == 0x08 {
            // Dot (1x1)
            Some(Size { w: 1, h: 1 })
        } else if s == 0x10 {
            // Quad (8x8)
            Some(Size { w: 8, h: 8 })
        } else {
            // Quad (16x16)
            Some(Size { w: 16, h: 16 })
        };
        proof {
            assert(op & 0x18 == 0 || op & 0x18 == 0x08 || op & 0x18 == 0x10 || op & 0x18 == 0x18) by (bit_vector);
        }

        let more = Remain::Count(
            match (textured, size.is_some()) {
                // pos + size
                (false, false) => 2,
                // pos
                (false, true) => 1,
                // pos + uv/clut + size
                (true, false) => 3,
                // pos + uv/clut
                (true, true) => 2,
            },
        );
        (RectPacket { textured, color, pos: None, uv: None, clut: None, size }, more)
    }

    /// Give the next word to the rectangle: its position, then (textured) its
    /// texture word (texture coordinates and CLUT), then its size.
    pub fn push_cmd(&mut self, cmd: u32)
        ensures
            *final(self) == (if old(self).pos is None {
                RectPacket { pos: Some(pos_of(cmd)), ..*old(self) }
            } else if old(self).textured && old(self).uv is None {
                RectPacket { uv: Some(uv_of(cmd)), clut: Some(clut_of(cmd)), ..*old(self) }
            } else {
                RectPacket { size: Some(size_of(cmd)), ..*old(self) }
            }),
    {
        if self.pos.is_none() {
            self.pos = Some(parse_pos(cmd));
            return;
        }
        if self.textured && self.uv.is_none() {
            self.uv = Some(parse_uv(cmd));
            self.clut = Some(parse_clut(cmd));
            return;
        }
        self.size = Some(parse_size(cmd));
    }
}


/// The vertex list after the words `words`, one after the other.
pub open spec fn vertices_fed(vs: Seq<VertexPacket>, gouraud: bool, textured: bool, words: Seq<u32>) -> Seq<
    VertexPacket,
>
    decreases words.len(),
{
    if words.len() == 0 {
        vs
    } else {
        vertices_fed(vertices_after(vs, gouraud, textured, words[0]), gouraud, textured, words.drop_first())
    }
}

/// Words that each vertex takes: its color when shaded, its position, and
/// its texture coordinates when textured.
pub open spec fn vertex_stride(gouraud: bool, textured: bool) -> int {
    1 + (if gouraud { 1int } else { 0int }) + (if textured { 1int } else { 0int })
}

proof fn lemma_vertices_fed_concat(vs: Seq<VertexPacket>, g: bool, t: bool, a: Seq<u32>, b: Seq<u32>)
    ensures
        vertices_fed(vs, g, t, a + b) == vertices_fed(vertices_fed(vs, g, t, a), g, t, b),
    decreases a.len(),
{
    if a.len() == 0 {
        assert(a + b =~= b);
    } else {
        assert((a + b).drop_first() =~= a.drop_first() + b);
        assert((a + b)[0] == a[0]);
        lemma_vertices_fed_concat(vertices_after(vs, g, t, a[0]), g, t, a.drop_first(), b);
    }
}

/// A block of words after a complete vertex makes one new vertex.
proof fn lemma_fed_block(vs: Seq<VertexPacket>, g: bool, t: bool, blk: Seq<u32>)
    requires
        vs.len() > 0,
        !((g && vs.last().color is None) || vs.last().pos is None || (t && vs.last().uv is None)),
        blk.len() == vertex_stride(g, t),
    ensures
        vertices_fed(vs, g, t, blk) == vs.push(
            VertexPacket {
                color: if g { Some(color_of(blk[0])) } else { None },
                pos: Some(pos_of(blk[if g { 1int } else { 0int }])),
                uv: if t { Some(uv_of(blk[blk.len() - 1])) } else { None },
            },
        ),
{
    reveal_with_fuel(vertices_fed, 4);
    let v1 = vertices_after(vs, g, t, blk[0]);
    assert(v1 == vs.push(filled(VertexPacket { pos: None, color: None, uv: None }, g, t, blk[0])));
    let r1 = blk.drop_first();
    if blk.len() > 1 {
        let v2 = vertices_after(v1, g, t, r1[0]);
        let r2 = r1.drop_first();
        if blk.len() > 2 {
            let v3 = vertices_after(v2, g, t, r2[0]);
            let r3 = r2.drop_first();
            assert(r3.len() == 0);
            assert(vertices_fed(v2, g, t, r2) == v3);
            assert(v3 =~= vs.push(
                VertexPacket {
                    color: Some(color_of(blk[0])),
                    pos: Some(pos_of(blk[1])),
                    uv: Some(uv_of(blk[2])),
                },
            ));
        } else {
            assert(r2.len() == 0);
            assert(vertices_fed(v1, g, t, r1) == v2);
            if g {
                assert(v2 =~= vs.push(
                    VertexPacket { color: Some(color_of(blk[0])), pos: Some(pos_of(blk[1])), uv: None },
                ));
            } else {
                assert(v2 =~= vs.push(
                    VertexPacket { color: None, pos: Some(pos_of(blk[0])), uv: Some(uv_of(blk[1])) },
                ));
            }
        }
    } else {
        assert(r1.len() == 0);
        assert(vertices_fed(vs, g, t, blk) == v1);
    }
}

/// The vertices a primitive starts with: for a shaded one, a vertex with the
/// color of the command word `c0`.
pub open spec fn initial_vertices(g: bool, c0: u32) -> Seq<VertexPacket> {
    if g {
        seq![VertexPacket { color: Some(color_of(c0)), pos: None, uv: None }]
    } else {
        Seq::empty()
    }
}

/// The vertex that the words of a primitive give as its vertex `k`.
pub open spec fn vertex_from_words(g: bool, t: bool, c0: u32, words: Seq<u32>, k: int) -> VertexPacket {
    let st = vertex_stride(g, t);
    VertexPacket {
        color: if !g {
            None
        } else if k == 0 {
            Some(color_of(c0))
        } else {
            Some(color_of(words[k * st - 1]))
        },
        pos: Some(pos_of(words[k * st])),
        uv: if t { Some(uv_of(words[k * st + 1])) } else { None },
    }
}

/// The words of a polygon or line, after its command word `c0`, fill its
/// vertices in order: vertex `k` takes its color (when shaded; vertex 0 has
/// it from the command word, vertex `k >= 1` from the word right before its
/// position), its position, then its texture coordinates (when textured).
/// So in a shaded, untextured primitive vertex `k >= 1` takes its color from
/// word `2k - 1` and its position from word `2k` after the command word.
pub proof fn law_vertex_words(g: bool, t: bool, c0: u32, words: Seq<u32>, n: nat)
    requires
        n >= 1,
        words.len() == n * vertex_stride(g, t) - (if g { 1int } else { 0int }),
    ensures
        ({
            let vs0 = initial_vertices(g, c0);
            let out = vertices_fed(vs0, g, t, words);
            &&& out.len() == n
            &&& forall|k: int| 0 <= k < n ==> #[trigger] out[k] == vertex_from_words(g, t, c0, words, k)
        }),
    decreases n,
{
    let st = vertex_stride(g, t);
    let gi: int = if g { 1 } else { 0 };
    let vs0 = initial_vertices(g, c0);
    if n == 1 {
        assert(n * st == st) by (nonlinear_arith)
            requires n == 1;
        reveal_with_fuel(vertices_fed, 3);
        let out = vertices_fed(vs0, g, t, words);
        let w1 = words.drop_first();
        let a1 = vertices_after(vs0, g, t, words[0]);
        if words.len() == 2 {
            assert(w1.drop_first().len() == 0);
            assert(vertices_fed(a1, g, t, w1) == vertices_after(a1, g, t, w1[0]));
        } else {
            assert(w1.len() == 0);
        }
        assert(out =~= seq![vertex_from_words(g, t, c0, words, 0)]);
    } else {
        let m = (n - 1) as nat;
        let cut = m * st - gi;
        assert(m * st == n * st - st) by (nonlinear_arith)
            requires m == n - 1;
        assert(m * st >= st) by (nonlinear_arith)
            requires m >= 1, st >= 1;
        let pre = words.subrange(0, cut);
        let blk = words.subrange(cut, words.len() as int);
        assert(words =~= pre + blk);
        law_vertex_words(g, t, c0, pre, m);
        let mid = vertices_fed(vs0, g, t, pre);
        lemma_vertices_fed_concat(vs0, g, t, pre, blk);
        assert(m * st >= st) by (nonlinear_arith)
            requires m >= 1, st >= 1;
        assert(mid.len() == m);
        assert(mid.last() == mid[m - 1]);
        assert(mid[m - 1] == vertex_from_words(g, t, c0, pre, m - 1));
        assert(blk.len() == st);
        lemma_fed_block(mid, g, t, blk);
        let out = vertices_fed(vs0, g, t, words);
        let nv = VertexPacket {
            color: if g { Some(color_of(blk[0])) } else { None },
            pos: Some(pos_of(blk[if g { 1int } else { 0int }])),
            uv: if t { Some(uv_of(blk[blk.len() - 1])) } else { None },
        };
        assert(out == mid.push(nv));
        assert forall|k: int| 0 <= k < n implies #[trigger] out[k] == vertex_from_words(g, t, c0, words, k) by {
            if k < m {
                assert(out[k] == mid[k]);
                assert(k * st + st <= m * st) by (nonlinear_arith)
                    requires k < m, st >= 1;
                assert(k * st >= 0) by (nonlinear_arith)
                    requires k >= 0, st >= 1;
                assert(mid[k] == vertex_from_words(g, t, c0, pre, k));
                if g && k > 0 {
                    assert(k * st >= st) by (nonlinear_arith)
                        requires k >= 1, st >= 1;
                    assert(pre[k * st - 1] == words[k * st - 1]);
                }
                assert(pre[k * st] == words[k * st]);
                if t {
                    assert(pre[k * st + 1] == words[k * st + 1]);
                }
                assert(vertex_from_words(g, t, c0, pre, k) == vertex_from_words(g, t, c0, words, k));
            } else {
                assert(k == m);
                assert(out[k] == nv);
                if g {
                    assert(blk[0] == words[m * st - 1]);
                }
                assert(blk[if g { 1int } else { 0int }] == words[m * st]);
                if t {
                    assert(blk[blk.len() - 1] == words[m * st + 1]);
                }
            }
        }
    }
}

} // verus!
