use vstd::prelude::*;

use smallvec::SmallVec;

use crate::render::types::{Clut, Color, Location, Position, Size, UV};

use super::{
    stat_with_bit, Gpu, GpuStat, READY_TO_SEND_VRAM_BIT, VRAM_HEIGHT, VRAM_SIZE, VRAM_WIDTH,
};

verus! {

/// Maximum polygon is quad.
pub const POLYGON_STACK_LIMIT: usize = 4;

/// Points for polyline that are stored inline. If more then heap alloc.
pub const POLYLINE_STACK_LIMIT: usize = 10;

/// The word that ends a polyline.
pub const TERMINATOR_CMD: u32 = 0x5000_5000;

/// Whether a vertex list of `len` vertices has room for one more. Pushing
/// onto a full list at most doubles its capacity, and a vertex takes well
/// under 32 bytes, so below this length the new allocation stays within
/// `isize::MAX` bytes, the one bound on which `SmallVec::push` panics.
pub open spec fn vertex_room(len: nat) -> bool {
    len < isize::MAX / 64
}

/// Command group of a GP0 word (its top three bits).
#[derive(Debug, Clone, Copy, PartialEq, Eq, Structural)]
pub enum Gp0OpcodeGroup {
    Misc,
    Polygon,
    Line,
    Rect,
    Vram2Vram,
    Cpu2Vram,
    Vram2Cpu,
    Env,
}

/// A vertex whose parts arrive in separate words.
#[derive(Debug, Clone, Copy, PartialEq, Eq, Structural)]
pub struct VertexBuilder {
    pub loc: Option<Location>,
    pub color: Option<Color>,
    pub uv: Option<UV>,
}

pub open spec fn empty_vertex() -> VertexBuilder {
    VertexBuilder { loc: None, color: None, uv: None }
}

/// Vertices of a polygon, kept inline up to a quad.
#[verifier::external_body]
pub struct PolygonVertices {
    inner: SmallVec<[VertexBuilder; POLYGON_STACK_LIMIT]>,
}

/// Vertices of a line or polyline, kept inline up to ten.
#[verifier::external_body]
pub struct LineVertices {
    inner: SmallVec<[VertexBuilder; POLYLINE_STACK_LIMIT]>,
}

/// The vertices that a polygon vertex list holds, in order.
pub uninterp spec fn polygon_vertices(v: PolygonVertices) -> Seq<VertexBuilder>;

/// The vertices that a line vertex list holds, in order.
pub uninterp spec fn line_vertices(v: LineVertices) -> Seq<VertexBuilder>;

/// `SmallVec::new`: an empty list.
#[verifier::external_body]
fn polygon_vertices_new() -> (r: PolygonVertices)
    ensures
        polygon_vertices(r) == Seq::<VertexBuilder>::empty(),
{
    PolygonVertices { inner: SmallVec::new() }
}

/// `SmallVec::len`: the number of vertices.
#[verifier::external_body]
fn polygon_vertices_len(v: &PolygonVertices) -> (r: usize)
    ensures
        r == polygon_vertices(*v).len(),
{
    v.inner.len()
}

/// `SmallVec::push`: append a vertex. It panics only when the byte size of
/// the grown capacity overflows, which the room left by `vertex_room` rules
/// out (a failed allocation aborts).
#[verifier::external_body]
fn polygon_vertices_push(v: &mut PolygonVertices, x: VertexBuilder)
    requires
        vertex_room(polygon_vertices(*old(v)).len()),
    ensures
        polygon_vertices(*final(v)) == polygon_vertices(*old(v)).push(x),
{
    v.inner.push(x)
}

/// Indexing a `SmallVec`: a copy of vertex `i`.
#[verifier::external_body]
fn polygon_vertices_get(v: &PolygonVertices, i: usize) -> (r: VertexBuilder)
    requires
        i < polygon_vertices(*v).len(),
    ensures
        r == polygon_vertices(*v)[i as int],
{
    v.inner[i]
}

/// Indexing a `SmallVec` mutably: replace vertex `i`.
#[verifier::external_body]
fn polygon_vertices_set(v: &mut PolygonVertices, i: usize, x: VertexBuilder)
    requires
        i < polygon_vertices(*old(v)).len(),
    ensures
        polygon_vertices(*final(v)) == polygon_vertices(*old(v)).update(i as int, x),
{
    v.inner[i] = x;
}

/// `SmallVec::new`: an empty list.
#[verifier::external_body]
fn line_vertices_new() -> (r: LineVertices)
    ensures
        line_vertices(r) == Seq::<VertexBuilder>::empty(),
{
    LineVertices { inner: SmallVec::new() }
}

/// `SmallVec::len`: the number of vertices.
#[verifier::external_body]
fn line_vertices_len(v: &LineVertices) -> (r: usize)
    ensures
        r == line_vertices(*v).len(),
{
    v.inner.len()
}

/// `SmallVec::push`: append a vertex. It panics only when the byte size of
/// the grown capacity overflows, which the room left by `vertex_room` rules
/// out (a failed allocation aborts).
#[verifier::external_body]
fn line_vertices_push(v: &mut LineVertices, x: VertexBuilder)
    requires
        vertex_room(line_vertices(*old(v)).len()),
    ensures
        line_vertices(*final(v)) == line_vertices(*old(v)).push(x),
{
    v.inner.push(x)
}

/// Indexing a `SmallVec`: a copy of vertex `i`.
#[verifier::external_body]
fn line_vertices_get(v: &LineVertices, i: usize) -> (r: VertexBuilder)
    requires
        i < line_vertices(*v).len(),
    ensures
        r == line_vertices(*v)[i as int],
{
    v.inner[i]
}

/// Indexing a `SmallVec` mutably: replace vertex `i`.
#[verifier::external_body]
fn line_vertices_set(v: &mut LineVertices, i: usize, x: VertexBuilder)
    requires
        i < line_vertices(*old(v)).len(),
    ensures
        line_vertices(*final(v)) == line_vertices(*old(v)).update(i as int, x),
{
    v.inner[i] = x;
}

/// A polygon being gathered.
pub struct PolygonPacket {
    pub gouraud: bool,
    pub textured: bool,
    pub color: Option<Color>,
    pub vertices: PolygonVertices,
    pub clut: Option<Clut>,
    pub tpage: Option<()>,
    pub words_left: usize,
}

/// A line or polyline being gathered.
pub struct LinePacket {
    pub gouraud: bool,
    pub color: Option<Color>,
    pub vertices: LineVertices,
    /// `None` when awaiting for terminator
    pub words_left: Option<usize>,
}

/// A rectangle being gathered.
#[derive(Debug, Clone, Copy)]
pub struct RectPacket {
    pub textured: bool,
    pub color: Color,
    pub loc: Option<Location>,
    pub uv: Option<UV>,
    pub clut: Option<Clut>,
    pub size: Option<Size>,
    pub words_left: usize,
}

/// A CPU to VRAM copy being received.
#[derive(Debug, Clone, Copy)]
pub struct Cpu2VramPacket {
    pub pos: Option<Position>,
    pub size: Option<Size>,
    pub pixels_written: u32,
}

/// A VRAM to CPU copy being set up.
#[derive(Debug, Clone, Copy)]
pub struct Vram2CpuPacket {
    pub pos: Option<Position>,
    pub size: Option<Size>,
}

/// The command that GP0 is gathering words for.
pub enum Packet {
    /// No command: the state after NOP.
    Nop,
    Polygon(PolygonPacket),
    Line(LinePacket),
    Rect(RectPacket),
    Cpu2Vram(Cpu2VramPacket),
    Vram2Cpu(Vram2CpuPacket),
}

pub struct CmdBuf {
    pub packet: Packet,
}

/// State of a VRAM to CPU transfer through GPUREAD.
#[derive(Debug, Clone, Copy)]
pub struct DataBuf {
    pub pos: Position,
    pub size: Size,
    pub pixels_read: u32,
}

/// [`Default`] state is like after NOP command.
impl Default for CmdBuf {
    fn default() -> (r: Self)
        ensures
            r.packet is Nop,
    {
        CmdBuf { packet: Packet::Nop }
    }
}

impl Default for DataBuf {
    fn default() -> (r: Self)
        ensures
            r.pos == (Position { x: 0, y: 0 }),
            r.size == (Size { w: 0, h: 0 }),
            r.pixels_read == 0,
    {
        DataBuf { pos: Position { x: 0, y: 0 }, size: Size { w: 0, h: 0 }, pixels_read: 0 }
    }
}

pub open spec fn spec_parse_color(cmd: u32) -> Color {
    Color { r: cmd as u8, g: (cmd >> 8u32) as u8, b: (cmd >> 16u32) as u8 }
}

pub open spec fn spec_parse_loc(cmd: u32) -> Location {
    Location { x: (cmd as u16) as i16, y: ((cmd >> 16u32) as u16) as i16 }
}

pub open spec fn spec_parse_pos(cmd: u32) -> Position {
    Position { x: cmd as u16, y: (cmd >> 16u32) as u16 }
}

pub open spec fn spec_parse_size(cmd: u32) -> Size {
    Size { w: cmd as u16, h: (cmd >> 16u32) as u16 }
}

pub open spec fn spec_parse_uv(cmd: u32) -> UV {
    UV { u: cmd as u8, v: (cmd >> 8u32) as u8 }
}

pub open spec fn spec_parse_clut(cmd: u32) -> Clut {
    Clut { x: (((cmd >> 16u32) & 0x3Fu32) << 4u32) as u16, y: ((cmd >> 22u32) & 0x1FFu32) as u16 }
}

/// Color in the low three bytes of a word.
pub fn parse_color(cmd: u32) -> (r: Color)
    ensures
        r == spec_parse_color(cmd),
{
    Color { r: cmd as u8, g: (cmd >> 8u32) as u8, b: (cmd >> 16u32) as u8 }
}

/// Signed location: x in the low half word, y in the high one.
pub fn parse_loc(cmd: u32) -> (r: Location)
    ensures
        r == spec_parse_loc(cmd),
{
    Location { x: (cmd as u16) as i16, y: ((cmd >> 16u32) as u16) as i16 }
}

/// VRAM position: x in the low half word, y in the high one.
pub fn parse_pos(cmd: u32) -> (r: Position)
    ensures
        r == spec_parse_pos(cmd),
{
    Position { x: cmd as u16, y: (cmd >> 16u32) as u16 }
}

/// Texture coordinates: U in the low byte, V in the next one.
pub fn parse_uv(cmd: u32) -> (r: UV)
    ensures
        r == spec_parse_uv(cmd),
{
    UV { u: cmd as u8, v: (cmd >> 8u32) as u8 }
}

/// Color lookup table of a texture word (its high half word): X in units of
/// 16 pixels in bits 16..22, Y in bits 22..31.
pub fn parse_clut(cmd: u32) -> (r: Clut)
    ensures
        r == spec_parse_clut(cmd),
{
    Clut { x: (((cmd >> 16u32) & 0x3Fu32) << 4u32) as u16, y: ((cmd >> 22u32) & 0x1FFu32) as u16 }
}

/// Size: width in the low half word, height in the high one.
pub fn parse_size(cmd: u32) -> (r: Size)
    ensures
        r == spec_parse_size(cmd),
{
    Size { w: cmd as u16, h: (cmd >> 16u32) as u16 }
}

/// Whether the last vertex still takes the next word: its color (for a
/// shaded primitive), its location, or its texture coordinates (for a textured
/// one).
pub open spec fn takes_word(v: VertexBuilder, gouraud: bool, textured: bool) -> bool {
    (gouraud && v.color is None) || v.loc is None || (textured && v.uv is None)
}

/// A vertex after it took a word: its color (for a shaded primitive), then
/// its location, then (for a textured one) its texture coordinates.
pub open spec fn fill_vertex(v: VertexBuilder, gouraud: bool, textured: bool, cmd: u32) -> VertexBuilder {
    if gouraud && v.color is None {
        VertexBuilder { color: Some(spec_parse_color(cmd)), ..v }
    } else if v.loc is None {
        VertexBuilder { loc: Some(spec_parse_loc(cmd)), ..v }
    } else if textured && v.uv is None {
        VertexBuilder { uv: Some(spec_parse_uv(cmd)), ..v }
    } else {
        v
    }
}

/// The vertex list after a word: the last vertex takes it if it can,
/// otherwise a new vertex starts with it.
pub open spec fn vertices_after(vs: Seq<VertexBuilder>, gouraud: bool, textured: bool, cmd: u32) -> Seq<
    VertexBuilder,
> {
    if vs.len() > 0 && takes_word(vs.last(), gouraud, textured) {
        vs.update(vs.len() - 1, fill_vertex(vs.last(), gouraud, textured, cmd))
    } else {
        vs.push(fill_vertex(empty_vertex(), gouraud, textured, cmd))
    }
}

/// Words that follow the first word of a polygon command: one per vertex,
/// one per color after the first for a shaded polygon, one per vertex for a
/// textured one.
pub open spec fn polygon_words(quad: bool, gouraud: bool, textured: bool) -> usize {
    let n: usize = if quad { 4 } else { 3 };
    (n + (if gouraud { n - 1 } else { 0 }) + (if textured { n } else { 0 })) as usize
}

/// Fill a vertex with a word.
fn fill(v: VertexBuilder, gouraud: bool, textured: bool, cmd: u32) -> (r: VertexBuilder)
    ensures
        r == fill_vertex(v, gouraud, textured, cmd),
{
    if gouraud && v.color.is_none() {
        VertexBuilder { color: Some(parse_color(cmd)), ..v }
    } else if v.loc.is_none() {
        VertexBuilder { loc: Some(parse_loc(cmd)), ..v }
    } else if textured && v.uv.is_none() {
        VertexBuilder { uv: Some(parse_uv(cmd)), ..v }
    } else {
        v
    }
}

fn takes(v: VertexBuilder, gouraud: bool, textured: bool) -> (r: bool)
    ensures
        r == takes_word(v, gouraud, textured),
{
    (gouraud && v.color.is_none()) || v.loc.is_none() || (textured && v.uv.is_none())
}

impl PolygonPacket {
    /// Start a polygon from its command word: the flags, and the first color
    /// (the flat color, or the color of the first vertex when shaded).
    pub fn init(cmd: u32) -> (r: Self)
        ensures
            r.gouraud == (((cmd >> 24u32) as u8) & 0x10 != 0),
            r.textured == (((cmd >> 24u32) as u8) & 0x04 != 0),
            r.color == (if r.gouraud { None } else { Some(spec_parse_color(cmd)) }),
            polygon_vertices(r.vertices) == (if r.gouraud {
                seq![VertexBuilder { color: Some(spec_parse_color(cmd)), loc: None, uv: None }]
            } else {
                Seq::<VertexBuilder>::empty()
            }),
            r.clut is None,
            r.tpage is None,
            r.words_left == polygon_words(
                ((cmd >> 24u32) as u8) & 0x08 != 0,
                r.gouraud,
                r.textured,
            ),
    {
        let op: u8 = (cmd >> 24u32) as u8;
        let quad = (op & 0x08) != 0;
        let gouraud = (op & 0x10) != 0;
        let textured = (op & 0x04) != 0;

        let mut vertices = polygon_vertices_new();
        let c = parse_color(cmd);
        let color = if !gouraud {
            Some(c)
        } else {
            polygon_vertices_push(&mut vertices, VertexBuilder { color: Some(c), loc: None, uv: None });
            None
        };

        // The first color is in initial word
        let words_left: usize = match (quad, gouraud, textured) {
            // 3 vertices
            (false, false, false) => 3,
            // 3 vertices + 2 colors
            (false, true, false) => 5,
            // 3 vertices + 3 uv-s
            (false, false, true) => 6,
            // 3 vertices + 2 colors + 3 uv-s
            (false, true, true) => 8,
            // 4 vertices
            (true, false, false) => 4,
            // 4 vertices + 3 colors
            (true, true, false) => 7,
            // 4 vertices + 4 uv-s
            (true, false, true) => 8,
            // 4 vertices + 3 colors + 4 uv-s
            (true, true, true) => 11,
        };
        PolygonPacket { gouraud, textured, color, vertices, clut: None, tpage: None, words_left }
    }

    /// Take the next word of the polygon.
    pub fn push_cmd(&mut self, cmd: u32)
        requires
            old(self).words_left > 0,
            vertex_room(polygon_vertices(old(self).vertices).len()),
        ensures
            final(self).words_left == old(self).words_left - 1,
            polygon_vertices(final(self).vertices) == vertices_after(
                polygon_vertices(old(self).vertices),
                old(self).gouraud,
                old(self).textured,
                cmd,
            ),
            final(self).gouraud == old(self).gouraud,
            final(self).textured == old(self).textured,
            final(self).color == old(self).color,
            final(self).clut == old(self).clut,
            final(self).tpage == old(self).tpage,
    {
        self.words_left = self.words_left - 1;
        let n = polygon_vertices_len(&self.vertices);
        if n > 0 {
            let last = polygon_vertices_get(&self.vertices, n - 1);
            if takes(last, self.gouraud, self.textured) {
                polygon_vertices_set(&mut self.vertices, n - 1, fill(last, self.gouraud, self.textured, cmd));
                return;
            }
        }
        let v = fill(VertexBuilder { loc: None, color: None, uv: None }, self.gouraud, self.textured, cmd);
        polygon_vertices_push(&mut self.vertices, v);
    }
}

impl LinePacket {
    /// Start a line from its command word: a polyline runs until the
    /// terminator word, a single line takes two vertices (and a color).
    pub fn init(cmd: u32) -> (r: Self)
        ensures
            r.gouraud == (((cmd >> 24u32) as u8) & 0x10 != 0),
            r.color == (if r.gouraud { None } else { Some(spec_parse_color(cmd)) }),
            line_vertices(r.vertices) == (if r.gouraud {
                seq![VertexBuilder { color: Some(spec_parse_color(cmd)), loc: None, uv: None }]
            } else {
                Seq::<VertexBuilder>::empty()
            }),
            r.words_left == (if ((cmd >> 24u32) as u8) & 0x08 != 0 {
                None
            } else if r.gouraud {
                Some(3usize)
            } else {
                Some(2usize)
            }),
    {
        let op: u8 = (cmd >> 24u32) as u8;
        let polyline = (op & 0x08) != 0;
        let gouraud = (op & 0x10) != 0;

        let mut vertices = line_vertices_new();
        let c = parse_color(cmd);
        let color = if !gouraud {
            Some(c)
        } else {
            line_vertices_push(&mut vertices, VertexBuilder { color: Some(c), loc: None, uv: None });
            None
        };

        // The first color is in initial word
        let words_left: Option<usize> = match (polyline, gouraud) {
            // 2 vertices
            (false, false) => Some(2),
            // 2 vertices + color
            (false, true) => Some(3),
            // Until terminator
            (true, _) => None,
        };
        LinePacket { gouraud, color, vertices, words_left }
    }

    /// Take the next word of the line. The terminator word ends the line.
    pub fn push_cmd(&mut self, cmd: u32)
        requires
            old(self).words_left != Some(0usize),
            vertex_room(line_vertices(old(self).vertices).len()),
        ensures
            final(self).words_left == (if cmd == TERMINATOR_CMD {
                Some(0usize)
            } else {
                match old(self).words_left {
                    Some(w) => Some((w - 1) as usize),
                    None => None,
                }
            }),
            line_vertices(final(self).vertices) == (if cmd == TERMINATOR_CMD {
                line_vertices(old(self).vertices)
            } else {
                vertices_after(line_vertices(old(self).vertices), old(self).gouraud, false, cmd)
            }),
            final(self).gouraud == old(self).gouraud,
            final(self).color == old(self).color,
    {
        if cmd == TERMINATOR_CMD {
            self.words_left = Some(0);
            return;
        } else if let Some(w) = self.words_left {
            self.words_left = Some(w - 1);
        }
        let n = line_vertices_len(&self.vertices);
        if n > 0 {
            let last = line_vertices_get(&self.vertices, n - 1);
            if takes(last, self.gouraud, false) {
                line_vertices_set(&mut self.vertices, n - 1, fill(last, self.gouraud, false, cmd));
                return;
            }
        }
        let v = fill(VertexBuilder { loc: None, color: None, uv: None }, self.gouraud, false, cmd);
        line_vertices_push(&mut self.vertices, v);
    }
}

/// Fixed sizes of rectangles by bits 3..5 of the opcode: variable, 1x1, 8x8, 16x16.
pub open spec fn rect_size(op: u8) -> Option<Size> {
    let s = op & 0x18;
    if s == 0x00 {
        None
    } else if s == 0x08 {
        Some(Size { w: 1, h: 1 })
    } else if s == 0x10 {
        Some(Size { w: 8, h: 8 })
    } else {
        Some(Size { w: 16, h: 16 })
    }
}

impl RectPacket {
    /// Start a rectangle from its command word: its color, texturing and size.
    pub fn init(cmd: u32) -> (r: Self)
        ensures
            r.textured == (((cmd >> 24u32) as u8) & 0x04 != 0),
            r.color == spec_parse_color(cmd),
            r.size == rect_size((cmd >> 24u32) as u8),
            r.loc is None,
            r.uv is None,
            r.clut is None,
            r.words_left == 1 + (if r.textured { 1usize } else { 0usize }) + (if r.size is None {
                1usize
            } else {
                0usize
            }),
    {
        let op: u8 = (cmd >> 24u32) as u8;
        let textured = (op & 0x04) != 0;
        let color = parse_color(cmd);
        let s: u8 = op & 0x18;
        let size = if s == 0x00 {
            // Variable sized
            None
        } else if s == 0x08 {
            // Dot (1x1)
            Some(Size { w: 1, h: 1 })
        } else if s == 0x10 {
            // Quad (8x8)
            Some(Size { w: 8, h: 8 })
        } else {
            // Quad (16x16)
            Some(Size { w: 16, h: 16 })
        };
        let words_left: usize = match (textured, size.is_some()) {
            // loc + size
            (false, false) => 2,
            // loc
            (false, true) => 1,
            // loc + uv/clut + size
            (true, false) => 3,
            // loc + uv/clut
            (true, true) => 2,
        };
        RectPacket { textured, color, loc: None, uv: None, clut: None, size, words_left }
    }

    /// Take the next word: the location, then (textured) the texture word
    /// (texture coordinates and CLUT), then the size.
    pub fn push_cmd(&mut self, cmd: u32)
        requires
            old(self).words_left > 0,
        ensures
            *final(self) == rect_pushed(*old(self), cmd),
    {
        self.words_left = self.words_left - 1;
        if self.loc.is_none() {
            self.loc = Some(parse_loc(cmd));
            return;
        }
        if self.textured && self.uv.is_none() {
            self.uv = Some(parse_uv(cmd));
            self.clut = Some(parse_clut(cmd));
            return;
        }
        self.size = Some(parse_size(cmd));
    }
}

/// A rectangle after a word: the location first; for a textured rectangle
/// then the texture word (texture coordinates and CLUT); then the size.
pub open spec fn rect_pushed(r: RectPacket, cmd: u32) -> RectPacket {
    let r1 = RectPacket { words_left: (r.words_left - 1) as usize, ..r };
    if r.loc is None {
        RectPacket { loc: Some(spec_parse_loc(cmd)), ..r1 }
    } else if r.textured && r.uv is None {
        RectPacket { uv: Some(spec_parse_uv(cmd)), clut: Some(spec_parse_clut(cmd)), ..r1 }
    } else {
        RectPacket { size: Some(spec_parse_size(cmd)), ..r1 }
    }
}

/// The model of a polygon being gathered.
pub struct PolygonModel {
    pub gouraud: bool,
    pub textured: bool,
    pub color: Option<Color>,
    pub vertices: Seq<VertexBuilder>,
    pub clut: Option<Clut>,
    pub tpage: Option<()>,
    pub words_left: usize,
}

/// The model of a line being gathered.
pub struct LineModel {
    pub gouraud: bool,
    pub color: Option<Color>,
    pub vertices: Seq<VertexBuilder>,
    pub words_left: Option<usize>,
}

/// The model of the command that GP0 gathers: vertex lists as sequences.
pub enum PacketModel {
    Nop,
    Polygon(PolygonModel),
    Line(LineModel),
    Rect(RectPacket),
    Cpu2Vram(Cpu2VramPacket),
    Vram2Cpu(Vram2CpuPacket),
}

impl View for Packet {
    type V = PacketModel;

    open spec fn view(&self) -> PacketModel {
        match *self {
            Packet::Nop => PacketModel::Nop,
            Packet::Polygon(p) => PacketModel::Polygon(
                PolygonModel {
                    gouraud: p.gouraud,
                    textured: p.textured,
                    color: p.color,
                    vertices: polygon_vertices(p.vertices),
                    clut: p.clut,
                    tpage: p.tpage,
                    words_left: p.words_left,
                },
            ),
            Packet::Line(p) => PacketModel::Line(
                LineModel {
                    gouraud: p.gouraud,
                    color: p.color,
                    vertices: line_vertices(p.vertices),
                    words_left: p.words_left,
                },
            ),
            Packet::Rect(p) => PacketModel::Rect(p),
            Packet::Cpu2Vram(p) => PacketModel::Cpu2Vram(p),
            Packet::Vram2Cpu(p) => PacketModel::Vram2Cpu(p),
        }
    }
}

/// Whether the command still waits for words.
pub open spec fn needs_more(p: PacketModel) -> bool {
    match p {
        PacketModel::Nop => false,
        PacketModel::Polygon(q) => q.words_left > 0,
        PacketModel::Line(q) => q.words_left != Some(0usize),
        PacketModel::Rect(q) => q.words_left > 0,
        PacketModel::Cpu2Vram(q) => match q.size {
            None => true,
            Some(size) => q.pixels_written < size.w * size.h,
        },
        PacketModel::Vram2Cpu(q) => q.size is None,
    }
}

/// The command that a first word starts, by its group: polygon, line,
/// rectangle, copy from the CPU, copy to the CPU. Other words (NOP, cache
/// clear, fill, VRAM to VRAM copy, environment) leave no command waiting.
pub open spec fn started(cmd: u32) -> PacketModel {
    let op = (cmd >> 24u32) as u8;
    let group = cmd >> 29u32;
    let gouraud = op & 0x10 != 0;
    let c = spec_parse_color(cmd);
    let first = seq![VertexBuilder { color: Some(c), loc: None, uv: None }];
    if group == 1 {
        PacketModel::Polygon(
            PolygonModel {
                gouraud,
                textured: op & 0x04 != 0,
                color: if gouraud { None } else { Some(c) },
                vertices: if gouraud { first } else { Seq::empty() },
                clut: None,
                tpage: None,
                words_left: polygon_words(op & 0x08 != 0, gouraud, op & 0x04 != 0),
            },
        )
    } else if group == 2 {
        PacketModel::Line(
            LineModel {
                gouraud,
                color: if gouraud { None } else { Some(c) },
                vertices: if gouraud { first } else { Seq::empty() },
                words_left: if op & 0x08 != 0 {
                    None
                } else if gouraud {
                    Some(3usize)
                } else {
                    Some(2usize)
                },
            },
        )
    } else if group == 3 {
        PacketModel::Rect(
            RectPacket {
                textured: op & 0x04 != 0,
                color: c,
                loc: None,
                uv: None,
                clut: None,
                size: rect_size(op),
                words_left: (1 + (if op & 0x04 != 0 { 1usize } else { 0usize }) + (if rect_size(
                    op,
                ) is None {
                    1usize
                } else {
                    0usize
                })) as usize,
            },
        )
    } else if group == 5 {
        PacketModel::Cpu2Vram(Cpu2VramPacket { pos: None, size: None, pixels_written: 0 })
    } else if group == 6 {
        PacketModel::Vram2Cpu(Vram2CpuPacket { pos: None, size: None })
    } else {
        PacketModel::Nop
    }
}

/// Column and row of pixel `n` of an area at `pos`, `w` pixels wide.
pub open spec fn pixel_at(pos: Position, w: u16, n: u32) -> (int, int) {
    (pos.x + n % (w as u32), pos.y + n / (w as u32))
}

/// The pixel access at column `x`, row `y` is handled: inside VRAM, or
/// beyond it by more than one column or one row (then it is skipped).
pub open spec fn pixel_handled(x: int, y: int) -> bool {
    (x < VRAM_WIDTH && y < VRAM_HEIGHT) || x > VRAM_WIDTH || y > VRAM_HEIGHT
}

/// VRAM after `p` is put at column `x`, row `y` (nothing when outside).
pub open spec fn vram_put(vram: Seq<u16>, x: int, y: int, p: u16) -> Seq<u16> {
    if x < VRAM_WIDTH && y < VRAM_HEIGHT {
        vram.update(y * VRAM_WIDTH + x, p)
    } else {
        vram
    }
}

/// The model of the GPU.
pub struct GpuModel {
    pub gpustat: u32,
    pub vram: Seq<u16>,
    pub packet: PacketModel,
    pub databuf: DataBuf,
}

/// The GPU after `cmd` was taken by the command `p` that waits for it (the
/// model's own packet is not used).
pub open spec fn push_model(g: GpuModel, p: PacketModel, cmd: u32) -> GpuModel {
    match p {
        PacketModel::Polygon(q) => GpuModel {
            packet: PacketModel::Polygon(
                PolygonModel {
                    words_left: (q.words_left - 1) as usize,
                    vertices: vertices_after(q.vertices, q.gouraud, q.textured, cmd),
                    ..q
                },
            ),
            ..g
        },
        PacketModel::Line(q) => GpuModel {
            packet: PacketModel::Line(
                if cmd == TERMINATOR_CMD {
                    LineModel { words_left: Some(0usize), ..q }
                } else {
                    LineModel {
                        words_left: match q.words_left {
                            Some(w) => Some((w - 1) as usize),
                            None => None,
                        },
                        vertices: vertices_after(q.vertices, q.gouraud, false, cmd),
                        ..q
                    }
                },
            ),
            ..g
        },
        PacketModel::Rect(q) => GpuModel { packet: PacketModel::Rect(rect_pushed(q, cmd)), ..g },
        PacketModel::Cpu2Vram(q) => {
            if q.pos is None {
                GpuModel {
                    packet: PacketModel::Cpu2Vram(Cpu2VramPacket { pos: Some(spec_parse_pos(cmd)), ..q }),
                    ..g
                }
            } else if q.size is None {
                GpuModel {
                    packet: PacketModel::Cpu2Vram(
                        Cpu2VramPacket { size: Some(spec_parse_size(cmd)), ..q },
                    ),
                    ..g
                }
            } else {
                let pos = q.pos.unwrap();
                let w = q.size.unwrap().w;
                let n0 = q.pixels_written;
                let n1 = n0.wrapping_add(1);
                let (x0, y0) = pixel_at(pos, w, n0);
                let (x1, y1) = pixel_at(pos, w, n1);
                let v1 = vram_put(g.vram, x0, y0, cmd as u16);
                let v2 = vram_put(v1, x1, y1, (cmd >> 16u32) as u16);
                GpuModel {
                    vram: v2,
                    packet: PacketModel::Cpu2Vram(
                        Cpu2VramPacket { pixels_written: n1.wrapping_add(1), ..q },
                    ),
                    ..g
                }
            }
        },
        PacketModel::Vram2Cpu(q) => {
            if q.pos is None {
                GpuModel {
                    packet: PacketModel::Vram2Cpu(Vram2CpuPacket { pos: Some(spec_parse_pos(cmd)), ..q }),
                    ..g
                }
            } else {
                GpuModel {
                    packet: PacketModel::Vram2Cpu(
                        Vram2CpuPacket { size: Some(spec_parse_size(cmd)), ..q },
                    ),
                    gpustat: stat_with_bit(g.gpustat, READY_TO_SEND_VRAM_BIT, true),
                    databuf: DataBuf {
                        pos: q.pos.unwrap(),
                        size: spec_parse_size(cmd),
                        pixels_read: 0,
                    },
                    ..g
                }
            }
        },
        PacketModel::Nop => g,
    }
}

/// Whether command `p` can take `cmd` in GPU `g`: the vertex list has room,
/// and a copy to VRAM touches no pixel just past the last column or row.
pub open spec fn push_defined(g: GpuModel, p: PacketModel, cmd: u32) -> bool {
    match p {
        PacketModel::Polygon(q) => vertex_room(q.vertices.len()),
        PacketModel::Line(q) => vertex_room(q.vertices.len()),
        PacketModel::Cpu2Vram(q) => match (q.pos, q.size) {
            (Some(pos), Some(size)) => {
                let n0 = q.pixels_written;
                let (x0, y0) = pixel_at(pos, size.w, n0);
                let (x1, y1) = pixel_at(pos, size.w, n0.wrapping_add(1));
                pixel_handled(x0, y0) && pixel_handled(x1, y1)
            },
            (None, Some(_)) => false,
            _ => true,
        },
        _ => true,
    }
}

/// The GPU after word `cmd` is written to GP0: the waiting command takes it,
/// or it starts a new command; a command that needs no more words is dropped.
pub open spec fn dispatched(g: GpuModel, cmd: u32) -> GpuModel {
    let g2 = if needs_more(g.packet) {
        push_model(g, g.packet, cmd)
    } else {
        GpuModel { packet: started(cmd), ..g }
    };
    if needs_more(g2.packet) {
        g2
    } else {
        GpuModel { packet: PacketModel::Nop, ..g2 }
    }
}

/// GP0 commands keep the size of VRAM.
pub proof fn lemma_dispatched_vram_len(g: GpuModel, cmd: u32)
    requires
        g.vram.len() == VRAM_SIZE,
    ensures
        dispatched(g, cmd).vram.len() == VRAM_SIZE,
{
    if needs_more(g.packet) {
        match g.packet {
            PacketModel::Cpu2Vram(q) => {
                if q.pos is Some && q.size is Some {
                    let pos = q.pos.unwrap();
                    let w = q.size.unwrap().w;
                    let n0 = q.pixels_written;
                    let n1 = n0.wrapping_add(1);
                    let (x0, y0) = pixel_at(pos, w, n0);
                    let (x1, y1) = pixel_at(pos, w, n1);
                    lemma_vram_put_len(g.vram, x0, y0, cmd as u16);
                    lemma_vram_put_len(vram_put(g.vram, x0, y0, cmd as u16), x1, y1, (cmd >> 16u32) as u16);
                }
            },
            _ => {},
        }
    }
}

pub proof fn lemma_vram_put_len(vram: Seq<u16>, x: int, y: int, p: u16)
    requires
        vram.len() == VRAM_SIZE,
        x >= 0,
        y >= 0,
    ensures
        vram_put(vram, x, y, p).len() == VRAM_SIZE,
{
    if x < VRAM_WIDTH && y < VRAM_HEIGHT {
        assert(y * VRAM_WIDTH + x < VRAM_SIZE) by (nonlinear_arith)
            requires
                0 <= x < 1024,
                0 <= y < 512,
        ;
    }
}

/// Whether GP0 handles word `cmd` in GPU `g`.
pub open spec fn dispatch_defined(g: GpuModel, cmd: u32) -> bool {
    &&& g.vram.len() == VRAM_SIZE
    &&& needs_more(g.packet) ==> push_defined(g, g.packet, cmd)
}


/// One pixel of a GPUREAD transfer: the pixel, and the GPU after it.
pub open spec fn read_step(g: GpuModel) -> (u32, GpuModel) {
    let d = g.databuf;
    let size = d.size.w * d.size.h;
    if d.pixels_read < size {
        let (x, y) = pixel_at(d.pos, d.size.w, d.pixels_read);
        let px: u32 = if x < VRAM_WIDTH && y < VRAM_HEIGHT {
            g.vram[y * VRAM_WIDTH + x] as u32
        } else {
            0
        };
        let pr = d.pixels_read.wrapping_add(1);
        let stat = if pr >= size {
            stat_with_bit(g.gpustat, READY_TO_SEND_VRAM_BIT, false)
        } else {
            g.gpustat
        };
        (px, GpuModel { databuf: DataBuf { pixels_read: pr, ..d }, gpustat: stat, ..g })
    } else {
        (0, g)
    }
}

pub open spec fn read_step_defined(g: GpuModel) -> bool {
    let d = g.databuf;
    &&& g.vram.len() == VRAM_SIZE
    &&& d.pixels_read < d.size.w * d.size.h ==> {
        let (x, y) = pixel_at(d.pos, d.size.w, d.pixels_read);
        pixel_handled(x, y)
    }
}

/// A GPUREAD: two pixels of the VRAM to CPU transfer, the first in the low
/// half word; a pixel past the end of the transfer reads as 0.
pub open spec fn gpuread(g: GpuModel) -> (u32, GpuModel) {
    let (a, g1) = read_step(g);
    let (b, g2) = read_step(g1);
    ((b << 16u32) | a, g2)
}

pub open spec fn gpuread_defined(g: GpuModel) -> bool {
    read_step_defined(g) && read_step_defined(read_step(g).1)
}

proof fn lemma_div_bound(n: u32, w: u32, h: u32)
    requires
        w > 0,
        n <= w * h,
    ensures
        n / w <= h,
        n % w < w,
        n < w * h ==> n / w < h,
{
    assert(n / w <= h) by (nonlinear_arith)
        requires
            w > 0,
            n <= w * h,
    ;
    assert(n < w * h ==> n / w < h) by (nonlinear_arith)
        requires
            w > 0,
            n <= w * h,
    ;
}

proof fn lemma_area(w: u16, h: u16)
    ensures
        w * h <= 0xFFFE_0001,
        w == 0 ==> w * h == 0,
{
    assert(w * h <= 0xFFFE_0001) by (nonlinear_arith)
        requires
            w <= 0xFFFF,
            h <= 0xFFFF,
    ;
}

/// Number of pixels of an area.
fn area(size: Size) -> (r: u32)
    ensures
        r == size.w * size.h,
{
    proof {
        lemma_area(size.w, size.h);
    }
    (size.w as u32) * (size.h as u32)
}

/// Put pixel `n` of the area at `pos`, `w` pixels wide; a pixel outside VRAM
/// is skipped.
fn put_pixel(vram: &mut Vec<u16>, pos: Position, w: u16, n: u32, pixel: u16)
    requires
        old(vram)@.len() == VRAM_SIZE,
        w > 0,
        pos.y + n / (w as u32) <= u32::MAX,
        pixel_handled(pixel_at(pos, w, n).0, pixel_at(pos, w, n).1),
    ensures
        final(vram)@ == vram_put(old(vram)@, pixel_at(pos, w, n).0, pixel_at(pos, w, n).1, pixel),
{
    let x: u32 = pos.x as u32 + n % (w as u32);
    let y: u32 = pos.y as u32 + n / (w as u32);
    if x <= VRAM_WIDTH as u32 && y <= VRAM_HEIGHT as u32 {
        vram.set((y as usize) * VRAM_WIDTH + x as usize, pixel);
    }
}

impl Cpu2VramPacket {
    /// Start a copy from the CPU: position, size and pixels follow.
    pub fn init(cmd: u32) -> (r: Self)
        ensures
            r == (Cpu2VramPacket { pos: None, size: None, pixels_written: 0 }),
    {
        Cpu2VramPacket { pos: None, size: None, pixels_written: 0 }
    }

    /// Take the position, then the size, then two pixels per word.
    pub fn push_cmd(&mut self, cmd: u32, gpu: &mut Gpu)
        requires
            old(gpu)@.vram.len() == VRAM_SIZE,
            needs_more(PacketModel::Cpu2Vram(*old(self))),
            push_defined(old(gpu)@, PacketModel::Cpu2Vram(*old(self)), cmd),
        ensures
            PacketModel::Cpu2Vram(*final(self)) == push_model(
                old(gpu)@,
                PacketModel::Cpu2Vram(*old(self)),
                cmd,
            ).packet,
            final(gpu)@ == (GpuModel {
                packet: old(gpu)@.packet,
                ..push_model(old(gpu)@, PacketModel::Cpu2Vram(*old(self)), cmd)
            }),
    {
        if self.pos.is_none() {
            self.pos = Some(parse_pos(cmd));
            return;
        }
        match self.size {
            None => {
                self.size = Some(parse_size(cmd));
            },
            Some(size) => {
                let pos = self.pos.unwrap();
                let total = area(size);
                let n0 = self.pixels_written;
                proof {
                    lemma_area(size.w, size.h);
                    lemma_div_bound(n0 as u32, size.w as u32, size.h as u32);
                    lemma_div_bound((n0 + 1) as u32, size.w as u32, size.h as u32);
                }
                put_pixel(&mut gpu.vram, pos, size.w, n0, cmd as u16);
                let n1 = n0.wrapping_add(1);
                put_pixel(&mut gpu.vram, pos, size.w, n1, (cmd >> 16u32) as u16);
                self.pixels_written = n1.wrapping_add(1);
            },
        }
    }
}

impl Vram2CpuPacket {
    /// Start a copy to the CPU: position and size follow.
    pub fn init(cmd: u32) -> (r: Self)
        ensures
            r == (Vram2CpuPacket { pos: None, size: None }),
    {
        Vram2CpuPacket { pos: None, size: None }
    }

    /// Take the position, then the size; the size starts the GPUREAD transfer.
    pub fn push_cmd(&mut self, cmd: u32, gpu: &mut Gpu)
        requires
            old(self).size is None,
        ensures
            PacketModel::Vram2Cpu(*final(self)) == push_model(
                old(gpu)@,
                PacketModel::Vram2Cpu(*old(self)),
                cmd,
            ).packet,
            final(gpu)@ == (GpuModel {
                packet: old(gpu)@.packet,
                ..push_model(old(gpu)@, PacketModel::Vram2Cpu(*old(self)), cmd)
            }),
    {
        match self.pos {
            None => {
                self.pos = Some(parse_pos(cmd));
            },
            Some(pos) => {
                let size = parse_size(cmd);
                self.size = Some(size);
                gpu.gpustat.set_bit(READY_TO_SEND_VRAM_BIT, true);
                gpu.databuf = DataBuf { pos, size, pixels_read: 0 };
            },
        }
    }
}

impl Packet {
    /// Whether the command still waits for words.
    pub fn needs_more(&self) -> (r: bool)
        ensures
            r == needs_more(self@),
    {
        match self {
            Packet::Nop => false,
            Packet::Polygon(q) => q.words_left > 0,
            Packet::Line(q) => match q.words_left {
                Some(w) => w != 0,
                None => true,
            },
            Packet::Rect(q) => q.words_left > 0,
            Packet::Cpu2Vram(q) => match q.size {
                None => true,
                Some(size) => q.pixels_written < area(size),
            },
            Packet::Vram2Cpu(q) => q.size.is_none(),
        }
    }

    /// The command that the first word `cmd` starts.
    pub fn start(cmd: u32) -> (r: Packet)
        ensures
            r@ == started(cmd),
    {
        let group: u32 = cmd >> 29u32;
        if group == 1 {
            let p = PolygonPacket::init(cmd);
            Packet::Polygon(p)
        } else if group == 2 {
            Packet::Line(LinePacket::init(cmd))
        } else if group == 3 {
            let r = RectPacket::init(cmd);
            Packet::Rect(r)
        } else if group == 5 {
            Packet::Cpu2Vram(Cpu2VramPacket::init(cmd))
        } else if group == 6 {
            Packet::Vram2Cpu(Vram2CpuPacket::init(cmd))
        } else {
            Packet::Nop
        }
    }

    /// Give word `cmd` to the command that waits for it.
    pub fn push_cmd(&mut self, cmd: u32, gpu: &mut Gpu)
        requires
            old(gpu)@.vram.len() == VRAM_SIZE,
            needs_more(old(self)@),
            push_defined(old(gpu)@, old(self)@, cmd),
        ensures
            final(self)@ == push_model(old(gpu)@, old(self)@, cmd).packet,
            final(gpu)@ == (GpuModel { packet: old(gpu)@.packet, ..push_model(old(gpu)@, old(self)@, cmd) }),
    {
        match self {
            Packet::Nop => {},
            Packet::Polygon(q) => q.push_cmd(cmd),
            Packet::Line(q) => q.push_cmd(cmd),
            Packet::Rect(q) => q.push_cmd(cmd),
            Packet::Cpu2Vram(q) => q.push_cmd(cmd, gpu),
            Packet::Vram2Cpu(q) => q.push_cmd(cmd, gpu),
        }
    }
}

/// A word written to GP0: the command that waits takes it, or it starts a new
/// one. A command complete after this word is dropped.
pub fn dispatch(gpu: &mut Gpu, cmd: u32)
    requires
        dispatch_defined(old(gpu)@, cmd),
    ensures
        final(gpu)@ == dispatched(old(gpu)@, cmd),
{
    let mut cmdbuf = CmdBuf { packet: Packet::Nop };
    core::mem::swap(&mut cmdbuf, &mut gpu.cmdbuf);
    if cmdbuf.packet.needs_more() {
        cmdbuf.packet.push_cmd(cmd, gpu);
    } else {
        cmdbuf.packet = Packet::start(cmd);
    }
    if cmdbuf.packet.needs_more() {
        gpu.cmdbuf = cmdbuf;
    }
}

/// The pixel that a GPUREAD transfer in state `d` reads next (0 past its end
/// or outside VRAM).
pub fn next_pixel(vram: &Vec<u16>, d: DataBuf) -> (r: u32)
    requires
        read_step_defined(GpuModel { databuf: d, vram: vram@, gpustat: 0, packet: PacketModel::Nop }),
    ensures
        r == read_step(GpuModel { databuf: d, vram: vram@, gpustat: 0, packet: PacketModel::Nop }).0,
{
    let size = area(d.size);
    proof {
        lemma_area(d.size.w, d.size.h);
    }
    if d.pixels_read < size {
        proof {
            lemma_div_bound(d.pixels_read, d.size.w as u32, d.size.h as u32);
        }
        let x: u32 = d.pos.x as u32 + d.pixels_read % (d.size.w as u32);
        let y: u32 = d.pos.y as u32 + d.pixels_read / (d.size.w as u32);
        if x <= VRAM_WIDTH as u32 && y <= VRAM_HEIGHT as u32 {
            vram[(y as usize) * VRAM_WIDTH + x as usize] as u32
        } else {
            0
        }
    } else {
        0
    }
}

/// The transfer state after one more pixel.
pub fn advanced(d: DataBuf) -> (r: DataBuf)
    ensures
        r == read_step(GpuModel { databuf: d, vram: Seq::empty(), gpustat: 0, packet: PacketModel::Nop }).1.databuf,
{
    proof {
        lemma_area(d.size.w, d.size.h);
    }
    if d.pixels_read < area(d.size) {
        DataBuf { pixels_read: d.pixels_read.wrapping_add(1), ..d }
    } else {
        d
    }
}

/// One pixel of a GPUREAD transfer.
fn read_pixel(gpu: &mut Gpu) -> (r: u32)
    requires
        read_step_defined(old(gpu)@),
    ensures
        (r, final(gpu)@) == read_step(old(gpu)@),
{
    let d = gpu.databuf;
    let px = next_pixel(&gpu.vram, d);
    let nd = advanced(d);
    gpu.databuf = nd;
    proof {
        lemma_area(d.size.w, d.size.h);
    }
    if d.pixels_read < area(d.size) && nd.pixels_read >= area(d.size) {
        gpu.gpustat.set_bit(READY_TO_SEND_VRAM_BIT, false);
    }
    px
}

/// GPUREAD: two pixels of the VRAM to CPU transfer, the first in the low half word.
pub fn read(gpu: &mut Gpu) -> (r: u32)
    requires
        gpuread_defined(old(gpu)@),
    ensures
        (r, final(gpu)@) == gpuread(old(gpu)@),
{
    let a = read_pixel(gpu);
    let b = read_pixel(gpu);
    proof {
        assert(a < 0x1_0000 && b < 0x1_0000);
    }
    (b << 16u32) | a
}


/// The GPU after the words `words` were written to GP0, first word first.
pub open spec fn fed(g: GpuModel, words: Seq<u32>) -> GpuModel
    decreases words.len(),
{
    if words.len() == 0 {
        g
    } else {
        fed(dispatched(g, words[0]), words.drop_first())
    }
}

/// Whether GP0 handles each of the words `words` in turn.
pub open spec fn fed_defined(g: GpuModel, words: Seq<u32>) -> bool
    decreases words.len(),
{
    words.len() == 0 || (dispatch_defined(g, words[0]) && fed_defined(
        dispatched(g, words[0]),
        words.drop_first(),
    ))
}


/// The VRAM index of pixel `n` of an area at `pos`, `w` pixels wide.
pub open spec fn pixel_index(pos: Position, w: u16, n: u32) -> int {
    let (x, y) = pixel_at(pos, w, n);
    y * VRAM_WIDTH + x
}

/// Pixel `n` of the words `data` of a copy: two pixels per word, the low
/// half word first.
pub open spec fn data_pixel(data: Seq<u32>, n: int) -> u16 {
    if n % 2 == 0 {
        data[n / 2] as u16
    } else {
        (data[n / 2] >> 16u32) as u16
    }
}

/// A non-empty-width area that lies inside VRAM.
pub open spec fn area_inside(pos: Position, size: Size) -> bool {
    &&& size.w > 0
    &&& pos.x + size.w <= VRAM_WIDTH
    &&& pos.y + size.h <= VRAM_HEIGHT
}

/// `k` GPUREADs in a row: the words read, and the GPU after them.
pub open spec fn gpureads(g: GpuModel, k: nat) -> (Seq<u32>, GpuModel)
    decreases k,
{
    if k == 0 {
        (Seq::empty(), g)
    } else {
        let (w, g1) = gpuread(g);
        let (rest, g2) = gpureads(g1, (k - 1) as nat);
        (seq![w] + rest, g2)
    }
}

/// Whether GPUREAD handles each of `k` reads in a row.
pub open spec fn gpureads_defined(g: GpuModel, k: nat) -> bool
    decreases k,
{
    k == 0 || (gpuread_defined(g) && gpureads_defined(gpuread(g).1, (k - 1) as nat))
}

/// The pixels of an area inside VRAM are inside VRAM.
proof fn lemma_pixel_inside(pos: Position, size: Size, n: u32)
    requires
        area_inside(pos, size),
        n < size.w * size.h,
    ensures
        pixel_at(pos, size.w, n).0 < VRAM_WIDTH,
        pixel_at(pos, size.w, n).1 < VRAM_HEIGHT,
        0 <= pixel_index(pos, size.w, n) < VRAM_SIZE,
{
    lemma_div_bound(n, size.w as u32, size.h as u32);
    let (x, y) = pixel_at(pos, size.w, n);
    assert(y * VRAM_WIDTH + x < VRAM_SIZE) by (nonlinear_arith)
        requires
            0 <= x < 1024,
            0 <= y < 512,
    ;
    assert(0 <= y * VRAM_WIDTH + x) by (nonlinear_arith)
        requires
            0 <= x,
            0 <= y,
    ;
}

/// Different pixels of an area inside VRAM are at different VRAM indices.
proof fn lemma_pixel_index_injective(pos: Position, size: Size, n: u32, m: u32)
    requires
        area_inside(pos, size),
        n < size.w * size.h,
        m < size.w * size.h,
        n != m,
    ensures
        pixel_index(pos, size.w, n) != pixel_index(pos, size.w, m),
{
    let w = size.w as int;
    lemma_div_bound(n, size.w as u32, size.h as u32);
    lemma_div_bound(m, size.w as u32, size.h as u32);
    let (a, b, c, d) = (n as int / w, n as int % w, m as int / w, m as int % w);
    assert(n == w * a + b && m == w * c + d) by (nonlinear_arith)
        requires
            w > 0,
            a == n as int / w,
            b == n as int % w,
            c == m as int / w,
            d == m as int % w,
    ;
    if pixel_index(pos, size.w, n) == pixel_index(pos, size.w, m) {
        assert((pos.y + a) * 1024 + (pos.x + b) == (pos.y + c) * 1024 + (pos.x + d));
        assert(a == c && b == d) by (nonlinear_arith)
            requires
                (pos.y + a) * 1024 + (pos.x + b) == (pos.y + c) * 1024 + (pos.x + d),
                0 <= pos.x + b < 1024,
                0 <= pos.x + d < 1024,
        ;
    }
}

/// The data words of a copy from the CPU, from word `j` on: every pixel of
/// the area ends up in VRAM, GP0 handles each word, and no command is left
/// waiting.
proof fn lemma_copy_words(g: GpuModel, data: Seq<u32>, j: nat)
    requires
        g.vram.len() == VRAM_SIZE,
        g.packet matches PacketModel::Cpu2Vram(q) && q.pos is Some && q.size is Some && q.pixels_written
            == 2 * j && area_inside(q.pos.unwrap(), q.size.unwrap()) && 2 * data.len() == q.size.unwrap().w
            * q.size.unwrap().h && forall|n: u32|
            n < 2 * j ==> #[trigger] g.vram[pixel_index(q.pos.unwrap(), q.size.unwrap().w, n)]
                == data_pixel(data, n as int),
        j < data.len(),
    ensures
        ({
            let q = g.packet->Cpu2Vram_0;
            let (pos, size) = (q.pos.unwrap(), q.size.unwrap());
            let g1 = fed(g, data.subrange(j as int, data.len() as int));
            &&& fed_defined(g, data.subrange(j as int, data.len() as int))
            &&& g1.packet == PacketModel::Nop
            &&& g1.vram.len() == VRAM_SIZE
            &&& g1.databuf == g.databuf
            &&& forall|n: u32|
                n < size.w * size.h ==> #[trigger] g1.vram[pixel_index(pos, size.w, n)] == data_pixel(
                    data,
                    n as int,
                )
        }),
    decreases data.len() - j,
{
    let q = g.packet->Cpu2Vram_0;
    let (pos, size) = (q.pos.unwrap(), q.size.unwrap());
    let w = size.w;
    let k = data.len();
    let cmd = data[j as int];
    lemma_area(size.w, size.h);
    let n0 = (2 * j) as u32;
    let n1 = (2 * j + 1) as u32;
    assert(n0.wrapping_add(1) == n1);
    assert(n1.wrapping_add(1) == (2 * j + 2) as u32);
    lemma_pixel_inside(pos, size, n0);
    lemma_pixel_inside(pos, size, n1);
    lemma_pixel_index_injective(pos, size, n0, n1);
    let v1 = vram_put(g.vram, pixel_at(pos, w, n0).0, pixel_at(pos, w, n0).1, cmd as u16);
    let v2 = vram_put(v1, pixel_at(pos, w, n1).0, pixel_at(pos, w, n1).1, (cmd >> 16u32) as u16);
    let g1 = dispatched(g, cmd);
    assert(g1.vram == v2);
    assert(g1.databuf == g.databuf);
    assert(dispatch_defined(g, cmd));
    assert forall|n: u32| n < 2 * j + 2 implies #[trigger] v2[pixel_index(pos, w, n)] == data_pixel(
        data,
        n as int,
    ) by {
        lemma_pixel_inside(pos, size, n);
        if n == n1 {
        } else if n == n0 {
            assert(v2[pixel_index(pos, w, n)] == v1[pixel_index(pos, w, n)]);
        } else {
            lemma_pixel_index_injective(pos, size, n, n0);
            lemma_pixel_index_injective(pos, size, n, n1);
            assert(v2[pixel_index(pos, w, n)] == g.vram[pixel_index(pos, w, n)]);
        }
    }
    let rest = data.subrange(j as int, k as int);
    assert(rest[0] == cmd);
    assert(rest.drop_first() =~= data.subrange((j + 1) as int, k as int));
    if j + 1 == k {
        assert(g1.packet == PacketModel::Nop);
        assert(data.subrange((j + 1) as int, k as int) =~= Seq::<u32>::empty());
        assert(fed(g1, Seq::<u32>::empty()) == g1);
        assert(fed_defined(g1, Seq::<u32>::empty()));
    } else {
        lemma_copy_words(g1, data, j + 1);
    }
    assert(fed(g, rest) == fed(g1, data.subrange((j + 1) as int, k as int)));
    assert(fed_defined(g, rest) == fed_defined(g1, data.subrange((j + 1) as int, k as int)));
}

/// A word split into its two half words, low one first, and put back together.
proof fn lemma_halves(d: u32)
    ensures
        ((((d >> 16u32) as u16) as u32) << 16u32) | ((d as u16) as u32) == d,
{
    assert(((((d >> 16u32) as u16) as u32) << 16u32) | ((d as u16) as u32) == d) by (bit_vector);
}

/// GPUREADs of a VRAM to CPU transfer from pixel `2 i` on, over an area whose
/// pixels hold `data`: the reads give back `data` from word `i` on.
proof fn lemma_reads(g: GpuModel, pos: Position, size: Size, data: Seq<u32>, i: nat)
    requires
        g.vram.len() == VRAM_SIZE,
        g.databuf == (DataBuf { pos, size, pixels_read: (2 * i) as u32 }),
        area_inside(pos, size),
        2 * data.len() == size.w * size.h,
        i <= data.len(),
        forall|n: u32|
            n < size.w * size.h ==> #[trigger] g.vram[pixel_index(pos, size.w, n)] == data_pixel(
                data,
                n as int,
            ),
    ensures
        gpureads_defined(g, (data.len() - i) as nat),
        gpureads(g, (data.len() - i) as nat).0 == data.subrange(i as int, data.len() as int),
    decreases data.len() - i,
{
    let k = data.len();
    if i < k {
        lemma_area(size.w, size.h);
        let n0 = (2 * i) as u32;
        let n1 = (2 * i + 1) as u32;
        assert(n0.wrapping_add(1) == n1);
        assert(n1.wrapping_add(1) == (2 * i + 2) as u32);
        lemma_pixel_inside(pos, size, n0);
        lemma_pixel_inside(pos, size, n1);
        let (a, g1) = read_step(g);
        let (b, g2) = read_step(g1);
        assert(a == data_pixel(data, n0 as int) as u32);
        assert(g1.vram == g.vram);
        assert(b == data_pixel(data, n1 as int) as u32);
        assert(n0 as int / 2 == i && n1 as int / 2 == i && n0 as int % 2 == 0 && n1 as int % 2 == 1);
        lemma_halves(data[i as int]);
        assert(gpuread(g).0 == data[i as int]);
        assert(gpuread(g).1 == g2);
        lemma_reads(g2, pos, size, data, i + 1);
        assert(gpureads(g, (k - i) as nat).0 =~= seq![data[i as int]] + data.subrange((i + 1) as int, k as int));
        assert(data.subrange(i as int, k as int) =~= seq![data[i as int]] + data.subrange((i + 1) as int, k as int));
    } else {
        assert(data.subrange(i as int, k as int) =~= Seq::<u32>::empty());
    }
}

/// Feeding two runs of words is feeding their concatenation.
proof fn lemma_fed_concat(g: GpuModel, s: Seq<u32>, t: Seq<u32>)
    ensures
        fed(g, s + t) == fed(fed(g, s), t),
        fed_defined(g, s + t) == (fed_defined(g, s) && fed_defined(fed(g, s), t)),
    decreases s.len(),
{
    if s.len() == 0 {
        assert(s + t =~= t);
    } else {
        assert((s + t).drop_first() =~= s.drop_first() + t);
        lemma_fed_concat(dispatched(g, s[0]), s.drop_first(), t);
    }
}

/// What a GPUREAD gives back of a copy: an area inside VRAM copied from the
/// CPU (GP0 copy command, position, size, then the pixels two per word), and
/// then copied back to the CPU (GP0 copy command, the same position and
/// size), reads back as the same words, one GPUREAD per word. GP0 and
/// GPUREAD handle every word of it. The area holds an even number of pixels:
/// with an odd one the second half of the last word lands past the area and
/// reads back as 0.
pub proof fn law_vram_copy_reads_back(
    g: GpuModel,
    c_write: u32,
    c_read: u32,
    pw: u32,
    sw: u32,
    data: Seq<u32>,
)
    requires
        g.vram.len() == VRAM_SIZE,
        !needs_more(g.packet),
        c_write >> 29u32 == 5,
        c_read >> 29u32 == 6,
        area_inside(spec_parse_pos(pw), spec_parse_size(sw)),
        2 * data.len() == spec_parse_size(sw).w * spec_parse_size(sw).h,
    ensures
        ({
            let writes = seq![c_write, pw, sw] + data;
            let reads = seq![c_read, pw, sw];
            let g1 = fed(g, writes);
            let g2 = fed(g1, reads);
            &&& fed_defined(g, writes)
            &&& fed_defined(g1, reads)
            &&& gpureads_defined(g2, data.len())
            &&& gpureads(g2, data.len()).0 == data
        }),
{
    let (pos, size) = (spec_parse_pos(pw), spec_parse_size(sw));
    let k = data.len();
    let head = seq![c_write, pw, sw];
    let ga = dispatched(g, c_write);
    let gb = dispatched(ga, pw);
    let gc = dispatched(gb, sw);
    assert(ga.packet == PacketModel::Cpu2Vram(Cpu2VramPacket { pos: None, size: None, pixels_written: 0 }));
    assert(gb.packet == PacketModel::Cpu2Vram(Cpu2VramPacket { pos: Some(pos), size: None, pixels_written: 0 }));
    assert(head.drop_first() =~= seq![pw, sw]);
    assert(seq![pw, sw].drop_first() =~= seq![sw]);
    assert(seq![sw].drop_first() =~= Seq::<u32>::empty());
    assert(fed(gc, Seq::<u32>::empty()) == gc);
    assert(fed_defined(gc, Seq::<u32>::empty()));
    assert(fed(gb, seq![sw]) == gc);
    assert(fed(ga, seq![pw, sw]) == gc);
    assert(fed(g, head) == gc);
    assert(fed_defined(gb, seq![sw]));
    assert(fed_defined(ga, seq![pw, sw]));
    assert(fed_defined(g, head));
    lemma_fed_concat(g, head, data);
    assert(gc.vram == g.vram);
    let g1 = fed(gc, data);
    if k == 0 {
        assert(gc.packet == PacketModel::Nop);
    } else {
        assert(gc.packet == PacketModel::Cpu2Vram(Cpu2VramPacket { pos: Some(pos), size: Some(size), pixels_written: 0 }));
        assert(data.subrange(0, k as int) =~= data);
        lemma_copy_words(gc, data, 0);
    }
    assert(g1.packet == PacketModel::Nop);
    assert(g1.vram.len() == VRAM_SIZE);
    let reads = seq![c_read, pw, sw];
    let gd = dispatched(g1, c_read);
    let ge = dispatched(gd, pw);
    let gf = dispatched(ge, sw);
    assert(gd.packet == PacketModel::Vram2Cpu(Vram2CpuPacket { pos: None, size: None }));
    assert(ge.packet == PacketModel::Vram2Cpu(Vram2CpuPacket { pos: Some(pos), size: None }));
    assert(gf.databuf == (DataBuf { pos, size, pixels_read: 0 }));
    assert(gf.vram == g1.vram);
    assert(reads.drop_first() =~= seq![pw, sw]);
    assert(fed(gf, Seq::<u32>::empty()) == gf);
    assert(fed_defined(gf, Seq::<u32>::empty()));
    assert(fed(ge, seq![sw]) == gf);
    assert(fed(gd, seq![pw, sw]) == gf);
    assert(fed(g1, reads) == gf);
    assert(fed_defined(ge, seq![sw]));
    assert(fed_defined(gd, seq![pw, sw]));
    assert(fed_defined(g1, reads));
    lemma_reads(gf, pos, size, data, 0);
    assert(data.subrange(0, k as int) =~= data);
}


/// The vertex list after the words `words`, one after the other.
pub open spec fn vertices_fed(vs: Seq<VertexBuilder>, gouraud: bool, textured: bool, words: Seq<u32>) -> Seq<
    VertexBuilder,
>
    decreases words.len(),
{
    if words.len() == 0 {
        vs
    } else {
        vertices_fed(vertices_after(vs, gouraud, textured, words[0]), gouraud, textured, words.drop_first())
    }
}

/// Words that each vertex takes: its color when shaded, its location, and
/// its texture coordinates when textured.
pub open spec fn vertex_stride(gouraud: bool, textured: bool) -> int {
    1 + (if gouraud { 1int } else { 0int }) + (if textured { 1int } else { 0int })
}

proof fn lemma_vertices_fed_concat(vs: Seq<VertexBuilder>, g: bool, t: bool, a: Seq<u32>, b: Seq<u32>)
    ensures
        vertices_fed(vs, g, t, a + b) == vertices_fed(vertices_fed(vs, g, t, a), g, t, b),
    decreases a.len(),
{
    if a.len() == 0 {
        assert(a + b =~= b);
    } else {
        assert((a + b).drop_first() =~= a.drop_first() + b);
        assert((a + b)[0] == a[0]);
        lemma_vertices_fed_concat(vertices_after(vs, g, t, a[0]), g, t, a.drop_first(), b);
    }
}

/// A block of words after a complete vertex makes one new vertex.
proof fn lemma_fed_block(vs: Seq<VertexBuilder>, g: bool, t: bool, blk: Seq<u32>)
    requires
        vs.len() > 0,
        !takes_word(vs.last(), g, t),
        blk.len() == vertex_stride(g, t),
    ensures
        vertices_fed(vs, g, t, blk) == vs.push(
            VertexBuilder {
                color: if g { Some(spec_parse_color(blk[0])) } else { None },
                loc: Some(spec_parse_loc(blk[if g { 1int } else { 0int }])),
                uv: if t { Some(spec_parse_uv(blk[blk.len() - 1])) } else { None },
            },
        ),
{
    reveal_with_fuel(vertices_fed, 4);
    let v1 = vertices_after(vs, g, t, blk[0]);
    assert(v1 == vs.push(fill_vertex(empty_vertex(), g, t, blk[0])));
    let r1 = blk.drop_first();
    if blk.len() > 1 {
        let v2 = vertices_after(v1, g, t, r1[0]);
        let r2 = r1.drop_first();
        if blk.len() > 2 {
            let v3 = vertices_after(v2, g, t, r2[0]);
            let r3 = r2.drop_first();
            assert(r3.len() == 0);
            assert(vertices_fed(v2, g, t, r2) == v3);
            assert(v3 =~= vs.push(
                VertexBuilder {
                    color: Some(spec_parse_color(blk[0])),
                    loc: Some(spec_parse_loc(blk[1])),
                    uv: Some(spec_parse_uv(blk[2])),
                },
            ));
        } else {
            assert(r2.len() == 0);
            assert(vertices_fed(v1, g, t, r1) == v2);
            if g {
                assert(v2 =~= vs.push(
                    VertexBuilder { color: Some(spec_parse_color(blk[0])), loc: Some(spec_parse_loc(blk[1])), uv: None },
                ));
            } else {
                assert(v2 =~= vs.push(
                    VertexBuilder { color: None, loc: Some(spec_parse_loc(blk[0])), uv: Some(spec_parse_uv(blk[1])) },
                ));
            }
        }
    } else {
        assert(r1.len() == 0);
        assert(vertices_fed(vs, g, t, blk) == v1);
    }
}

/// The vertices a primitive starts with: for a shaded one, a vertex with the
/// color of the command word `c0`.
pub open spec fn initial_vertices(g: bool, c0: u32) -> Seq<VertexBuilder> {
    if g {
        seq![VertexBuilder { color: Some(spec_parse_color(c0)), loc: None, uv: None }]
    } else {
        Seq::empty()
    }
}

/// The vertex that the words of a primitive give as its vertex `k`.
pub open spec fn vertex_from_words(g: bool, t: bool, c0: u32, words: Seq<u32>, k: int) -> VertexBuilder {
    let st = vertex_stride(g, t);
    VertexBuilder {
        color: if !g {
            None
        } else if k == 0 {
            Some(spec_parse_color(c0))
        } else {
            Some(spec_parse_color(words[k * st - 1]))
        },
        loc: Some(spec_parse_loc(words[k * st])),
        uv: if t { Some(spec_parse_uv(words[k * st + 1])) } else { None },
    }
}

/// The words of a polygon or line, after its command word `c0`, fill its
/// vertices in order: vertex `k` takes its color (when shaded; vertex 0 has
/// it from the command word, vertex `k >= 1` from the word right before its
/// location), its location, then its texture coordinates (when textured).
/// So in a shaded, untextured primitive vertex `k >= 1` takes its color from
/// word `2k - 1` and its location from word `2k` after the command word.
pub proof fn law_vertex_words(g: bool, t: bool, c0: u32, words: Seq<u32>, n: nat)
    requires
        n >= 1,
        words.len() == n * vertex_stride(g, t) - (if g { 1int } else { 0int }),
    ensures
        ({
            let vs0 = initial_vertices(g, c0);
            let out = vertices_fed(vs0, g, t, words);
            &&& out.len() == n
            &&& forall|k: int| 0 <= k < n ==> #[trigger] out[k] == vertex_from_words(g, t, c0, words, k)
        }),
    decreases n,
{
    let st = vertex_stride(g, t);
    let gi: int = if g { 1 } else { 0 };
    let vs0 = initial_vertices(g, c0);
    if n == 1 {
        assert(n * st == st) by (nonlinear_arith)
            requires n == 1;
        reveal_with_fuel(vertices_fed, 3);
        let out = vertices_fed(vs0, g, t, words);
        let w1 = words.drop_first();
        let a1 = vertices_after(vs0, g, t, words[0]);
        if words.len() == 2 {
            assert(w1.drop_first().len() == 0);
            assert(vertices_fed(a1, g, t, w1) == vertices_after(a1, g, t, w1[0]));
        } else {
            assert(w1.len() == 0);
        }
        assert(out =~= seq![vertex_from_words(g, t, c0, words, 0)]);
    } else {
        let m = (n - 1) as nat;
        let cut = m * st - gi;
        assert(m * st == n * st - st) by (nonlinear_arith)
            requires m == n - 1;
        assert(m * st >= st) by (nonlinear_arith)
            requires m >= 1, st >= 1;
        let pre = words.subrange(0, cut);
        let blk = words.subrange(cut, words.len() as int);
        assert(words =~= pre + blk);
        law_vertex_words(g, t, c0, pre, m);
        let mid = vertices_fed(vs0, g, t, pre);
        lemma_vertices_fed_concat(vs0, g, t, pre, blk);
        assert(m * st >= st) by (nonlinear_arith)
            requires m >= 1, st >= 1;
        assert(mid.len() == m);
        assert(mid.last() == mid[m - 1]);
        assert(mid[m - 1] == vertex_from_words(g, t, c0, pre, m - 1));
        assert(blk.len() == st);
        lemma_fed_block(mid, g, t, blk);
        let out = vertices_fed(vs0, g, t, words);
        let nv = VertexBuilder {
            color: if g { Some(spec_parse_color(blk[0])) } else { None },
            loc: Some(spec_parse_loc(blk[if g { 1int } else { 0int }])),
            uv: if t { Some(spec_parse_uv(blk[blk.len() - 1])) } else { None },
        };
        assert(out == mid.push(nv));
        assert forall|k: int| 0 <= k < n implies #[trigger] out[k] == vertex_from_words(g, t, c0, words, k) by {
            if k < m {
                assert(out[k] == mid[k]);
                assert(k * st + st <= m * st) by (nonlinear_arith)
                    requires k < m, st >= 1;
                assert(k * st >= 0) by (nonlinear_arith)
                    requires k >= 0, st >= 1;
                assert(mid[k] == vertex_from_words(g, t, c0, pre, k));
                if g && k > 0 {
                    assert(k * st >= st) by (nonlinear_arith)
                        requires k >= 1, st >= 1;
                    assert(pre[k * st - 1] == words[k * st - 1]);
                }
                assert(pre[k * st] == words[k * st]);
                if t {
                    assert(pre[k * st + 1] == words[k * st + 1]);
                }
                assert(vertex_from_words(g, t, c0, pre, k) == vertex_from_words(g, t, c0, words, k));
            } else {
                assert(k == m);
                assert(out[k] == nv);
                if g {
                    assert(blk[0] == words[m * st - 1]);
                }
                assert(blk[if g { 1int } else { 0int }] == words[m * st]);
                if t {
                    assert(blk[blk.len() - 1] == words[m * st + 1]);
                }
            }
        }
    }
}

} // verus!
