//! The mesh builder: turns the posed slots of one character, taken in draw
//! order, into one batch of vertices and triangle indices.
//!
//! Coordinates, texture coordinates, scale and tint channels come in 16.16
//! fixed point (`ONE` stands for 1.0). Vertex positions go out in 32.32 fixed
//! point, so that the placement of a vertex is exact.

use vstd::prelude::*;

verus! {

/// 1.0 in 16.16 fixed point.
pub const ONE: u32 = 0x1_0000;

/// The largest value of a colour channel that goes out.
pub const CHANNEL_MAX: u8 = 255;

// ---------------------------------------------------------------------------
// Colour
// ---------------------------------------------------------------------------

/// A tint: four channels in 16.16 fixed point, `ONE` for full strength.
#[derive(Clone, Copy, Debug, PartialEq, Eq)]
pub struct Tint {
    pub r: u32,
    pub g: u32,
    pub b: u32,
    pub a: u32,
}

/// A colour as it goes out: four 8-bit channels, the three colour channels
/// premultiplied by alpha.
#[derive(Clone, Copy, Debug, PartialEq, Eq)]
pub struct Rgba {
    pub r: u8,
    pub g: u8,
    pub b: u8,
    pub a: u8,
}

/// One channel of a slot's tint times the same channel of its attachment's
/// tint, scaled to 0..=255, rounded down, and held at 255. This is what the
/// alpha channel of a vertex gets.
pub open spec fn modulate_channel_spec(slot: u32, attachment: u32) -> u8 {
    let scaled = (slot as int * attachment as int * 255) / 0x1_0000_0000;
    if scaled >= 255 {
        255u8
    } else {
        scaled as u8
    }
}

/// Multiplies one channel of a slot's tint with that of its attachment.
pub fn modulate_channel(slot: u32, attachment: u32) -> (out: u8)
    ensures
        out == modulate_channel_spec(slot, attachment),
{
    let s: u128 = slot as u128;
    let a: u128 = attachment as u128;
    assert(0 <= s * a <= 0xFFFF_FFFF * 0xFFFF_FFFF) by (nonlinear_arith)
        requires
            0 <= s <= 0xFFFF_FFFF,
            0 <= a <= 0xFFFF_FFFF,
    ;
    let product: u128 = s * a;
    let scaled: u128 = (product * 255) / 0x1_0000_0000;
    if scaled >= 255 {
        255
    } else {
        scaled as u8
    }
}

/// One colour channel of a vertex: the slot's channel times the attachment's,
/// premultiplied by the vertex's alpha, which is the slot's alpha times the
/// attachment's; scaled to 0..=255, rounded down once, and held at 255.
pub open spec fn premultiplied_channel_spec(
    slot: u32,
    attachment: u32,
    slot_alpha: u32,
    attachment_alpha: u32,
) -> u8 {
    let scaled = ((slot as int * attachment as int) * (slot_alpha as int * attachment_alpha as int)
        * 255) / 0x1_0000_0000_0000_0000;
    if scaled >= 255 {
        255u8
    } else {
        scaled as u8
    }
}

/// Multiplies one colour channel of a slot's tint with that of its attachment
/// and with the alpha of both.
pub fn premultiplied_channel(slot: u32, attachment: u32, slot_alpha: u32, attachment_alpha: u32) -> (out:
    u8)
    ensures
        out == premultiplied_channel_spec(slot, attachment, slot_alpha, attachment_alpha),
{
    let s: u128 = slot as u128;
    let a: u128 = attachment as u128;
    let sa: u128 = slot_alpha as u128;
    let aa: u128 = attachment_alpha as u128;
    assert(0 <= s * a <= 0xFFFF_FFFE_0000_0001) by (nonlinear_arith)
        requires
            0 <= s <= 0xFFFF_FFFF,
            0 <= a <= 0xFFFF_FFFF,
    ;
    assert(0 <= sa * aa <= 0xFFFF_FFFE_0000_0001) by (nonlinear_arith)
        requires
            0 <= sa <= 0xFFFF_FFFF,
            0 <= aa <= 0xFFFF_FFFF,
    ;
    let tone: u128 = s * a;
    let alpha: u128 = sa * aa;
    assert(0 <= tone * alpha <= 0xFFFF_FFFE_0000_0001 * 0xFFFF_FFFE_0000_0001) by (nonlinear_arith)
        requires
            0 <= tone <= 0xFFFF_FFFE_0000_0001,
            0 <= alpha <= 0xFFFF_FFFE_0000_0001,
    ;
    let weight: u128 = tone * alpha;
    if weight >= 0x1_0000_0000_0000_0000 {
        assert((weight * 255) / 0x1_0000_0000_0000_0000 >= 255);
        255
    } else {
        let scaled: u128 = (weight * 255) / 0x1_0000_0000_0000_0000;
        if scaled >= 255 {
            255
        } else {
            scaled as u8
        }
    }
}

/// The colour of a slot's vertices. Alpha is the slot's alpha times the
/// attachment's. Each colour channel is the slot's channel times the
/// attachment's, premultiplied by that alpha.
pub open spec fn modulate_spec(slot: Tint, attachment: Tint) -> Rgba {
    Rgba {
        r: premultiplied_channel_spec(slot.r, attachment.r, slot.a, attachment.a),
        g: premultiplied_channel_spec(slot.g, attachment.g, slot.a, attachment.a),
        b: premultiplied_channel_spec(slot.b, attachment.b, slot.a, attachment.a),
        a: modulate_channel_spec(slot.a, attachment.a),
    }
}

/// The colour of a slot's vertices.
pub fn modulate(slot: Tint, attachment: Tint) -> (out: Rgba)
    ensures
        out == modulate_spec(slot, attachment),
{
    Rgba {
        r: premultiplied_channel(slot.r, attachment.r, slot.a, attachment.a),
        g: premultiplied_channel(slot.g, attachment.g, slot.a, attachment.a),
        b: premultiplied_channel(slot.b, attachment.b, slot.a, attachment.a),
        a: modulate_channel(slot.a, attachment.a),
    }
}

impl Tint {
    /// Full strength in every channel.
    pub fn white() -> (tint: Tint)
        ensures
            tint == (Tint { r: ONE, g: ONE, b: ONE, a: ONE }),
    {
        Tint { r: ONE, g: ONE, b: ONE, a: ONE }
    }

    /// Whether every channel lies within 0..=1.
    pub open spec fn in_range(self) -> bool {
        self.r <= ONE && self.g <= ONE && self.b <= ONE && self.a <= ONE
    }
}

/// Two channels within 0..=1 give their product scaled to 0..=255 and
/// rounded down; a channel at full strength leaves the other as it is.
pub proof fn lemma_modulate_channel_in_range(slot: u32, attachment: u32)
    requires
        slot <= ONE,
        attachment <= ONE,
    ensures
        modulate_channel_spec(slot, attachment) as int == (slot as int * attachment as int * 255)
            / 0x1_0000_0000,
        modulate_channel_spec(slot, ONE) as int == (slot as int * 255) / 0x1_0000,
        modulate_channel_spec(ONE, ONE) == 255,
{
    let p = slot as int * attachment as int;
    assert(0 <= p <= 0x1_0000_0000) by (nonlinear_arith)
        requires
            p == slot as int * attachment as int,
            0 <= slot <= 0x1_0000,
            0 <= attachment <= 0x1_0000,
    ;
    assert(p * 255 / 0x1_0000_0000 <= 255);
    assert(slot as int * (ONE as int) * 255 == (slot as int * 255) * 0x1_0000) by (nonlinear_arith);
    assert(((slot as int * 255) * 0x1_0000) / 0x1_0000_0000 == (slot as int * 255) / 0x1_0000);
}

/// A premultiplied colour channel never exceeds alpha, where the four
/// channels that go into it lie within 0..=1; and where alpha is full it is
/// the plain product of the slot's channel and the attachment's.
pub proof fn lemma_premultiplied_channel_within_alpha(
    slot: u32,
    attachment: u32,
    slot_alpha: u32,
    attachment_alpha: u32,
)
    requires
        slot <= ONE,
        attachment <= ONE,
        slot_alpha <= ONE,
        attachment_alpha <= ONE,
    ensures
        premultiplied_channel_spec(slot, attachment, slot_alpha, attachment_alpha)
            <= modulate_channel_spec(slot_alpha, attachment_alpha),
        premultiplied_channel_spec(slot, attachment, slot_alpha, attachment_alpha) as int == ((slot
            as int * attachment as int) * (slot_alpha as int * attachment_alpha as int) * 255)
            / 0x1_0000_0000_0000_0000,
        premultiplied_channel_spec(slot, attachment, ONE, ONE) == modulate_channel_spec(
            slot,
            attachment,
        ),
{
    let tone = slot as int * attachment as int;
    let alpha = slot_alpha as int * attachment_alpha as int;
    assert(0 <= tone <= 0x1_0000_0000) by (nonlinear_arith)
        requires
            tone == slot as int * attachment as int,
            0 <= slot <= 0x1_0000,
            0 <= attachment <= 0x1_0000,
    ;
    assert(0 <= alpha <= 0x1_0000_0000) by (nonlinear_arith)
        requires
            alpha == slot_alpha as int * attachment_alpha as int,
            0 <= slot_alpha <= 0x1_0000,
            0 <= attachment_alpha <= 0x1_0000,
    ;
    let lit = alpha * 255;
    assert(0 <= tone * alpha * 255 <= lit * 0x1_0000_0000) by (nonlinear_arith)
        requires
            0 <= tone <= 0x1_0000_0000,
            0 <= alpha,
            lit == alpha * 255,
    ;
    assert((lit * 0x1_0000_0000) / 0x1_0000_0000_0000_0000 == lit / 0x1_0000_0000);
    assert(lit / 0x1_0000_0000 <= 255);
    assert((tone * alpha * 255) / 0x1_0000_0000_0000_0000 <= (lit * 0x1_0000_0000)
        / 0x1_0000_0000_0000_0000);
    // Full alpha: the weight is the tone times 2^32.
    let full = (ONE as int) * (ONE as int);
    assert(full == 0x1_0000_0000);
    let plain = tone * 255;
    assert(tone * full * 255 == plain * 0x1_0000_0000) by (nonlinear_arith)
        requires
            full == 0x1_0000_0000,
            plain == tone * 255,
    ;
    assert((plain * 0x1_0000_0000) / 0x1_0000_0000_0000_0000 == plain / 0x1_0000_0000);
}

/// The colour of a vertex is premultiplied: with tints within 0..=1 no
/// colour channel exceeds alpha, and a vertex without alpha has no colour.
pub proof fn lemma_colour_within_alpha(slot: Tint, attachment: Tint)
    requires
        slot.in_range(),
        attachment.in_range(),
    ensures
        modulate_spec(slot, attachment).r <= modulate_spec(slot, attachment).a,
        modulate_spec(slot, attachment).g <= modulate_spec(slot, attachment).a,
        modulate_spec(slot, attachment).b <= modulate_spec(slot, attachment).a,
        modulate_spec(slot, attachment).a == 0 ==> modulate_spec(slot, attachment) == (Rgba {
            r: 0,
            g: 0,
            b: 0,
            a: 0,
        }),
{
    lemma_premultiplied_channel_within_alpha(slot.r, attachment.r, slot.a, attachment.a);
    lemma_premultiplied_channel_within_alpha(slot.g, attachment.g, slot.a, attachment.a);
    lemma_premultiplied_channel_within_alpha(slot.b, attachment.b, slot.a, attachment.a);
}

/// White under white at full alpha is opaque white, and a tint of full
/// colour comes out with every channel equal to its alpha.
pub proof fn lemma_white_follows_alpha(slot_alpha: u32, attachment_alpha: u32)
    requires
        slot_alpha <= ONE,
        attachment_alpha <= ONE,
    ensures
        modulate_spec(Tint { r: ONE, g: ONE, b: ONE, a: ONE }, Tint { r: ONE, g: ONE, b: ONE, a: ONE })
            == (Rgba { r: 255, g: 255, b: 255, a: 255 }),
        ({
            let out = modulate_spec(
                Tint { r: ONE, g: ONE, b: ONE, a: slot_alpha },
                Tint { r: ONE, g: ONE, b: ONE, a: attachment_alpha },
            );
            out.r == out.a && out.g == out.a && out.b == out.a
        }),
{
    lemma_modulate_channel_in_range(ONE, ONE);
    lemma_premultiplied_channel_within_alpha(ONE, ONE, ONE, ONE);
    let alpha = slot_alpha as int * attachment_alpha as int;
    let tone = (ONE as int) * (ONE as int);
    assert(tone == 0x1_0000_0000);
    assert(0 <= alpha <= 0x1_0000_0000) by (nonlinear_arith)
        requires
            alpha == slot_alpha as int * attachment_alpha as int,
            0 <= slot_alpha <= 0x1_0000,
            0 <= attachment_alpha <= 0x1_0000,
    ;
    let lit = alpha * 255;
    assert(tone * alpha * 255 == lit * 0x1_0000_0000) by (nonlinear_arith)
        requires
            tone == 0x1_0000_0000,
            lit == alpha * 255,
    ;
    assert((lit * 0x1_0000_0000) / 0x1_0000_0000_0000_0000 == lit / 0x1_0000_0000);
}

// ---------------------------------------------------------------------------
// Geometry that comes in
// ---------------------------------------------------------------------------

/// Where a character stands on screen: a position and a uniform scale, in
/// 16.16 fixed point.
#[derive(Clone, Copy, Debug, PartialEq, Eq)]
pub struct Placement {
    pub x: i32,
    pub y: i32,
    pub scale: u32,
}

/// The shape of one attachment, as the builder reads it: world coordinates
/// and texture coordinates as `x, y` pairs, corner indices in threes, and the
/// attachment's tint.
pub ghost struct Geometry {
    pub points: Seq<i32>,
    pub uvs: Seq<i32>,
    pub triangles: Seq<u16>,
    pub tint: Tint,
}

impl Geometry {
    /// Number of vertices: the `x, y` pairs that have both a position and a
    /// texture coordinate.
    pub open spec fn vertex_count(self) -> nat {
        let with_uv = self.uvs.len() / 2;
        let with_point = self.points.len() / 2;
        if with_uv <= with_point {
            with_uv
        } else {
            with_point
        }
    }

    /// Validity: every corner index names a vertex of this attachment.
    pub open spec fn wf(self) -> bool {
        forall|i: int| 0 <= i < self.triangles.len() ==> (#[trigger] self.triangles[i] as int)
            < self.vertex_count()
    }
}

/// The corner indices of a rigid quad: two triangles over its four corners.
pub open spec fn quad_triangles() -> Seq<u16> {
    seq![0u16, 1u16, 2u16, 2u16, 3u16, 0u16]
}

/// The texture coordinates of a rigid quad: the corners of the unit square,
/// one for each corner of the quad in the order lower right, lower left,
/// upper left, upper right, with `v` growing downwards.
pub open spec fn unit_square_uvs() -> Seq<i32> {
    seq![0x1_0000i32, 0x1_0000i32, 0i32, 0x1_0000i32, 0i32, 0i32, 0x1_0000i32, 0i32]
}

/// A rigid quad: four corners in the order lower right, lower left, upper
/// left, upper right. Its texture coordinates are fixed: each corner has its
/// corner of the unit square.
#[derive(Clone, Copy, Debug, PartialEq, Eq)]
pub struct RegionAttachment {
    points: [i32; 8],
    tint: Tint,
}

impl View for RegionAttachment {
    type V = Geometry;

    closed spec fn view(&self) -> Geometry {
        Geometry {
            points: self.points@,
            uvs: unit_square_uvs(),
            triangles: quad_triangles(),
            tint: self.tint,
        }
    }
}

impl RegionAttachment {
    /// A quad with the given corners, as `x, y` pairs.
    pub fn new(points: [i32; 8], tint: Tint) -> (region: RegionAttachment)
        ensures
            region@ == (Geometry {
                points: points@,
                uvs: unit_square_uvs(),
                triangles: quad_triangles(),
                tint,
            }),
            region@.wf(),
            region@.vertex_count() == 4,
    {
        RegionAttachment { points, tint }
    }
}

/// Why a mesh attachment was refused.
#[derive(Clone, Copy, Debug, PartialEq, Eq)]
pub enum GeometryError {
    /// There are not as many texture coordinates as world coordinates.
    LengthMismatch,
    /// A coordinate is left without its partner.
    OddLength,
    /// A corner index names no vertex of the attachment.
    IndexOutOfRange,
}

/// A free-form mesh whose corner indices have been checked against its
/// vertices.
#[derive(Debug, PartialEq, Eq)]
pub struct MeshAttachment {
    points: Vec<i32>,
    uvs: Vec<i32>,
    triangles: Vec<u16>,
    tint: Tint,
}

impl View for MeshAttachment {
    type V = Geometry;

    closed spec fn view(&self) -> Geometry {
        Geometry {
            points: self.points@,
            uvs: self.uvs@,
            triangles: self.triangles@,
            tint: self.tint,
        }
    }
}

/// What checking a mesh attachment's data finds, the checks taken in the
/// order of `GeometryError`.
pub open spec fn check_geometry(points: Seq<i32>, uvs: Seq<i32>, triangles: Seq<u16>) -> Option<
    GeometryError,
> {
    if points.len() != uvs.len() {
        Some(GeometryError::LengthMismatch)
    } else if points.len() % 2 != 0 {
        Some(GeometryError::OddLength)
    } else if exists|i: int| 0 <= i < triangles.len() && triangles[i] as int >= points.len() / 2 {
        Some(GeometryError::IndexOutOfRange)
    } else {
        None
    }
}

impl MeshAttachment {
    #[verifier::type_invariant]
    closed spec fn inv(self) -> bool {
        self@.wf()
    }

    /// A mesh from its data, checked: as many texture coordinates as world
    /// coordinates, all in pairs, and every corner index below the number of
    /// vertices.
    pub fn new(points: Vec<i32>, uvs: Vec<i32>, triangles: Vec<u16>, tint: Tint) -> (made: Result<
        MeshAttachment,
        GeometryError,
    >)
        ensures
            match made {
                Ok(mesh) => {
                    &&& check_geometry(points@, uvs@, triangles@) is None
                    &&& mesh@ == (Geometry {
                        points: points@,
                        uvs: uvs@,
                        triangles: triangles@,
                        tint,
                    })
                    &&& mesh@.wf()
                    &&& mesh@.vertex_count() == points@.len() / 2
                },
                Err(e) => check_geometry(points@, uvs@, triangles@) == Some(e),
            },
    {
        if points.len() != uvs.len() {
            return Err(GeometryError::LengthMismatch);
        }
        if points.len() % 2 != 0 {
            return Err(GeometryError::OddLength);
        }
        let count: usize = points.len() / 2;
        let mut i: usize = 0;
        while i < triangles.len()
            invariant
                i <= triangles.len(),
                count == points.len() / 2,
                points.len() == uvs.len(),
                points.len() % 2 == 0,
                forall|k: int| 0 <= k < i ==> (#[trigger] triangles@[k] as int) < count,
            decreases triangles.len() - i,
        {
            if triangles[i] as usize >= count {
                assert(triangles@[i as int] as int >= points@.len() / 2);
                return Err(GeometryError::IndexOutOfRange);
            }
            i = i + 1;
        }
        Ok(MeshAttachment { points, uvs, triangles, tint })
    }
}

/// What a slot carries.
#[derive(Debug, PartialEq, Eq)]
pub enum Attachment {
    /// A rigid quad.
    Region(RegionAttachment),
    /// A free-form mesh.
    Mesh(MeshAttachment),
    /// Anything the builder does not draw.
    Other,
}

/// One slot of a posed skeleton.
#[derive(Debug, PartialEq, Eq)]
pub struct SlotPose {
    /// The slot's own tint.
    pub tint: Tint,
    /// What the slot carries, if anything.
    pub attachment: Option<Attachment>,
}

impl SlotPose {
    /// The shape that the slot adds to a batch: that of its region or mesh.
    /// A slot with nothing attached, or with something else, adds none.
    pub open spec fn geometry(self) -> Option<Geometry> {
        match self.attachment {
            Some(Attachment::Region(region)) => Some(region@),
            Some(Attachment::Mesh(mesh)) => Some(mesh@),
            Some(Attachment::Other) => None,
            None => None,
        }
    }
}

// ---------------------------------------------------------------------------
// The batch that goes out
// ---------------------------------------------------------------------------

/// One vertex of a batch. The position is in 32.32 fixed point, the texture
/// coordinate in 16.16.
#[derive(Clone, Copy, Debug, PartialEq, Eq)]
pub struct Vertex {
    pub x: i128,
    pub y: i128,
    pub u: i32,
    pub v: i32,
    pub color: Rgba,
}

/// The vertex that the `i`-th pair of `g` becomes on screen: scaled, turned
/// from a y-up to a y-down frame, and moved to the character's position.
pub open spec fn placed_vertex(g: Geometry, i: int, place: Placement, color: Rgba) -> Vertex {
    Vertex {
        x: (g.points[2 * i] * place.scale + place.x * 0x1_0000) as i128,
        y: (-g.points[2 * i + 1] * place.scale + place.y * 0x1_0000) as i128,
        u: g.uvs[2 * i],
        v: g.uvs[2 * i + 1],
        color,
    }
}

/// All vertices of `g` on screen, in the attachment's order.
pub open spec fn placed_vertices(g: Geometry, place: Placement, slot_tint: Tint) -> Seq<Vertex> {
    Seq::new(
        g.vertex_count(),
        |i: int| placed_vertex(g, i, place, modulate_spec(slot_tint, g.tint)),
    )
}

/// Corner indices moved up by the number of vertices that the batch held
/// before.
pub open spec fn shifted_indices(triangles: Seq<u16>, offset: nat) -> Seq<u32> {
    Seq::new(triangles.len(), |i: int| (offset + triangles[i]) as u32)
}

/// The mathematical content of a batch.
pub ghost struct MeshView {
    pub vertices: Seq<Vertex>,
    pub indices: Seq<u32>,
    pub texture: u64,
}

impl MeshView {
    /// Validity: the vertices can be counted in 32 bits and every index names
    /// one of them.
    pub open spec fn wf(self) -> bool {
        &&& self.vertices.len() <= u32::MAX
        &&& forall|i: int| 0 <= i < self.indices.len() ==> (#[trigger] self.indices[i] as int)
            < self.vertices.len()
    }

    /// An empty batch for one texture.
    pub open spec fn empty(texture: u64) -> MeshView {
        MeshView { vertices: Seq::empty(), indices: Seq::empty(), texture }
    }

    /// Whether the vertices of `g` can join without their indices leaving
    /// 32 bits.
    pub open spec fn has_room(self, g: Geometry) -> bool {
        self.vertices.len() + g.vertex_count() <= u32::MAX
    }

    /// The batch with `g` added behind what it holds: the vertices of `g` on
    /// screen, and its corner indices moved up by the number of vertices
    /// that were there. Where `g` does not fit, the batch stays as it is.
    pub open spec fn push(self, g: Geometry, place: Placement, slot_tint: Tint) -> MeshView {
        if self.has_room(g) {
            MeshView {
                vertices: self.vertices + placed_vertices(g, place, slot_tint),
                indices: self.indices + shifted_indices(g.triangles, self.vertices.len()),
                texture: self.texture,
            }
        } else {
            self
        }
    }

    /// The batch with what `slot` shows added; a slot that shows nothing
    /// leaves it as it is.
    pub open spec fn push_slot(self, slot: SlotPose, place: Placement) -> MeshView {
        match slot.geometry() {
            Some(g) => self.push(g, place, slot.tint),
            None => self,
        }
    }

    /// The batch with the slots added one after the other, first to last.
    pub open spec fn draw(self, slots: Seq<SlotPose>, place: Placement) -> MeshView
        decreases slots.len(),
    {
        if slots.len() == 0 {
            self
        } else {
            self.draw(slots.drop_last(), place).push_slot(slots.last(), place)
        }
    }
}

/// Adding a valid shape keeps a batch valid, keeps what it held in place and
/// adds exactly the shape's vertices and indices where there is room.
pub proof fn lemma_push_extends(mesh: MeshView, g: Geometry, place: Placement, slot_tint: Tint)
    requires
        mesh.wf(),
        g.wf(),
    ensures
        mesh.push(g, place, slot_tint).wf(),
        mesh.push(g, place, slot_tint).texture == mesh.texture,
        mesh.vertices.is_prefix_of(mesh.push(g, place, slot_tint).vertices),
        mesh.indices.is_prefix_of(mesh.push(g, place, slot_tint).indices),
        mesh.has_room(g) ==> mesh.push(g, place, slot_tint).vertices.len() == mesh.vertices.len()
            + g.vertex_count() && mesh.push(g, place, slot_tint).indices.len()
            == mesh.indices.len() + g.triangles.len(),
        mesh.has_room(g) ==> forall|k: int|
            0 <= k < g.triangles.len() ==> (#[trigger] mesh.push(
                g,
                place,
                slot_tint,
            ).indices[mesh.indices.len() + k]) == mesh.vertices.len() + g.triangles[k],
        !mesh.has_room(g) ==> mesh.push(g, place, slot_tint) == mesh,
{
    let after = mesh.push(g, place, slot_tint);
    if mesh.has_room(g) {
        assert forall|i: int| 0 <= i < after.indices.len() implies (#[trigger] after.indices[i]
            as int) < after.vertices.len() by {
            if i >= mesh.indices.len() {
                let j = i - mesh.indices.len();
                assert((g.triangles[j] as int) < g.vertex_count());
            } else {
                assert(after.indices[i] == mesh.indices[i]);
            }
        }
    }
}

/// No index of a later slot falls among the vertices of an earlier one. With
/// `a` drawn before `b` into one batch, each index that `a` adds is its own
/// corner index plus the vertices that were there before `a`, and names a
/// vertex of `a`; each index that `b` adds is its own corner index plus the
/// vertices that were there before `a` plus those of `a`, and names a vertex
/// of `b`.
pub proof fn lemma_slots_do_not_alias(
    mesh: MeshView,
    a: Geometry,
    tint_a: Tint,
    b: Geometry,
    tint_b: Tint,
    place: Placement,
)
    requires
        mesh.wf(),
        a.wf(),
        b.wf(),
        mesh.has_room(a),
        mesh.push(a, place, tint_a).has_room(b),
    ensures
        ({
            let both = mesh.push(a, place, tint_a).push(b, place, tint_b);
            let before = mesh.vertices.len();
            let first = mesh.indices.len();
            let second = first + a.triangles.len();
            &&& both.wf()
            &&& both.vertices.len() == before + a.vertex_count() + b.vertex_count()
            &&& both.indices.len() == second + b.triangles.len()
            &&& forall|j: int|
                0 <= j < a.triangles.len() ==> {
                    &&& (#[trigger] both.indices[first + j]) == before + a.triangles[j]
                    &&& before <= both.indices[first + j] < before + a.vertex_count()
                }
            &&& forall|j: int|
                0 <= j < b.triangles.len() ==> {
                    &&& (#[trigger] both.indices[second + j]) == before + a.vertex_count()
                        + b.triangles[j]
                    &&& before + a.vertex_count() <= both.indices[second + j] < before
                        + a.vertex_count() + b.vertex_count()
                }
        }),
{
    let one = mesh.push(a, place, tint_a);
    let both = one.push(b, place, tint_b);
    lemma_push_extends(mesh, a, place, tint_a);
    lemma_push_extends(one, b, place, tint_b);
    let before = mesh.vertices.len();
    let first = mesh.indices.len();
    let second = first + a.triangles.len();
    assert forall|j: int| 0 <= j < a.triangles.len() implies {
        &&& (#[trigger] both.indices[first + j]) == before + a.triangles[j]
        &&& before <= both.indices[first + j] < before + a.vertex_count()
    } by {
        assert(both.indices[first + j] == one.indices[first + j]);
        assert((a.triangles[j] as int) < a.vertex_count());
    }
    assert forall|j: int| 0 <= j < b.triangles.len() implies {
        &&& (#[trigger] both.indices[second + j]) == before + a.vertex_count() + b.triangles[j]
        &&& before + a.vertex_count() <= both.indices[second + j] < before + a.vertex_count()
            + b.vertex_count()
    } by {
        assert((b.triangles[j] as int) < b.vertex_count());
    }
}

/// Every shape that a slot can show is valid, so drawing slots keeps a batch
/// valid and keeps what it held in place.
pub proof fn lemma_draw_extends(mesh: MeshView, slots: Seq<SlotPose>, place: Placement)
    requires
        mesh.wf(),
        slots_wf(slots),
    ensures
        mesh.draw(slots, place).wf(),
        mesh.draw(slots, place).texture == mesh.texture,
        mesh.vertices.is_prefix_of(mesh.draw(slots, place).vertices),
        mesh.indices.is_prefix_of(mesh.draw(slots, place).indices),
    decreases slots.len(),
{
    if slots.len() > 0 {
        let head = slots.drop_last();
        assert forall|i: int| 0 <= i < head.len() && (#[trigger] head[i]).geometry() is Some
            implies head[i].geometry()->0.wf() by {
            assert(head[i] == slots[i]);
        }
        lemma_draw_extends(mesh, head, place);
        let mid = mesh.draw(head, place);
        match slots.last().geometry() {
            Some(g) => {
                assert(slots[slots.len() - 1].geometry() is Some);
                lemma_push_extends(mid, g, place, slots.last().tint);
            },
            None => {},
        }
    }
}

/// Whether every shape that the slots show is valid.
pub open spec fn slots_wf(slots: Seq<SlotPose>) -> bool {
    forall|i: int|
        0 <= i < slots.len() && (#[trigger] slots[i]).geometry() is Some
            ==> slots[i].geometry()->0.wf()
}

/// Drawing slots is drawing the first `k` of them and then the rest.
pub proof fn lemma_draw_split(mesh: MeshView, slots: Seq<SlotPose>, place: Placement, k: int)
    requires
        0 <= k <= slots.len(),
    ensures
        mesh.draw(slots, place) == mesh.draw(slots.take(k), place).draw(slots.skip(k), place),
    decreases slots.len(),
{
    if k == slots.len() {
        assert(slots.take(k) =~= slots);
        assert(slots.skip(k).len() == 0);
    } else {
        let head = slots.drop_last();
        lemma_draw_split(mesh, head, place, k);
        assert(head.take(k) =~= slots.take(k));
        assert(head.skip(k) =~= slots.skip(k).drop_last());
        assert(slots.skip(k).last() == slots.last());
    }
}

/// In the batch of a whole draw, every slot keeps its indices to itself.
/// With `before` the batch as it stands when slot `k` is reached and `after`
/// the batch once the slot is drawn: every index that the slot adds is its
/// own corner index plus the number of vertices in `before`, and so names a
/// vertex that the slot itself added; every index added earlier names a
/// vertex added earlier. A slot for which the batch has no room adds
/// nothing.
pub proof fn lemma_slot_keeps_its_indices(
    mesh: MeshView,
    slots: Seq<SlotPose>,
    place: Placement,
    k: int,
)
    requires
        mesh.wf(),
        slots_wf(slots),
        0 <= k < slots.len(),
    ensures
        ({
            let before = mesh.draw(slots.take(k), place);
            let after = mesh.draw(slots.take(k + 1), place);
            let whole = mesh.draw(slots, place);
            &&& after == before.push_slot(slots[k], place)
            &&& whole.wf()
            &&& before.vertices.len() <= after.vertices.len() <= whole.vertices.len()
            &&& before.indices.len() <= after.indices.len() <= whole.indices.len()
            &&& forall|j: int|
                0 <= j < before.indices.len() ==> (#[trigger] whole.indices[j] as int)
                    < before.vertices.len()
            &&& forall|j: int|
                before.indices.len() <= j < after.indices.len() ==> {
                    &&& slots[k].geometry() is Some
                    &&& (#[trigger] whole.indices[j]) == before.vertices.len()
                        + slots[k].geometry()->0.triangles[j - before.indices.len()]
                    &&& before.vertices.len() <= whole.indices[j] < after.vertices.len()
                }
        }),
{
    let first = slots.take(k);
    let upto = slots.take(k + 1);
    let rest = slots.skip(k + 1);
    let before = mesh.draw(first, place);
    let after = mesh.draw(upto, place);
    let whole = mesh.draw(slots, place);
    assert(slots_wf(first)) by {
        assert forall|i: int| 0 <= i < first.len() && (#[trigger] first[i]).geometry() is Some
            implies first[i].geometry()->0.wf() by {
            assert(first[i] == slots[i]);
        }
    }
    assert(slots_wf(rest)) by {
        assert forall|i: int| 0 <= i < rest.len() && (#[trigger] rest[i]).geometry() is Some
            implies rest[i].geometry()->0.wf() by {
            assert(rest[i] == slots[i + k + 1]);
        }
    }
    lemma_draw_extends(mesh, first, place);
    assert(upto.drop_last() =~= first);
    assert(upto.last() == slots[k]);
    assert(after == before.push_slot(slots[k], place));
    match slots[k].geometry() {
        Some(g) => {
            lemma_push_extends(before, g, place, slots[k].tint);
        },
        None => {},
    }
    lemma_draw_split(mesh, slots, place, k + 1);
    lemma_draw_extends(after, rest, place);
    assert forall|j: int| 0 <= j < before.indices.len() implies (#[trigger] whole.indices[j]
        as int) < before.vertices.len() by {
        assert(whole.indices[j] == after.indices[j]);
        assert(after.indices[j] == before.indices[j]);
    }
    assert forall|j: int| before.indices.len() <= j < after.indices.len() implies {
        &&& slots[k].geometry() is Some
        &&& (#[trigger] whole.indices[j]) == before.vertices.len()
            + slots[k].geometry()->0.triangles[j - before.indices.len()]
        &&& before.vertices.len() <= whole.indices[j] < after.vertices.len()
    } by {
        assert(whole.indices[j] == after.indices[j]);
        let g = slots[k].geometry()->0;
        let local = j - before.indices.len();
        assert(before.has_room(g));
        assert(after.indices[before.indices.len() + local] == before.vertices.len()
            + g.triangles[local]);
        assert((g.triangles[local] as int) < g.vertex_count());
    }
}

/// A region's four vertices carry the four corners of the unit square, one
/// each.
pub proof fn lemma_region_shows_the_unit_square(g: Geometry, place: Placement, slot_tint: Tint)
    requires
        g.points.len() == 8,
        g.uvs == unit_square_uvs(),
    ensures
        ({
            let v = placed_vertices(g, place, slot_tint);
            &&& v.len() == 4
            &&& (v[0].u, v[0].v) == (0x1_0000i32, 0x1_0000i32)
            &&& (v[1].u, v[1].v) == (0i32, 0x1_0000i32)
            &&& (v[2].u, v[2].v) == (0i32, 0i32)
            &&& (v[3].u, v[3].v) == (0x1_0000i32, 0i32)
        }),
{
}

/// A batch of vertices and triangle indices for one texture.
#[derive(Debug, PartialEq, Eq)]
pub struct MeshData {
    vertices: Vec<Vertex>,
    indices: Vec<u32>,
    texture: u64,
}

impl View for MeshData {
    type V = MeshView;

    closed spec fn view(&self) -> MeshView {
        MeshView { vertices: self.vertices@, indices: self.indices@, texture: self.texture }
    }
}

impl MeshData {
    #[verifier::type_invariant]
    closed spec fn inv(self) -> bool {
        self@.wf()
    }

    /// An empty batch for the texture `texture`.
    pub fn with_texture(texture: u64) -> (mesh: MeshData)
        ensures
            mesh@ == MeshView::empty(texture),
            mesh@.wf(),
    {
        MeshData { vertices: Vec::new(), indices: Vec::new(), texture }
    }

    /// Adds one checked shape behind what the batch holds.
    fn push_geometry(
        &mut self,
        points: &[i32],
        uvs: &[i32],
        triangles: &[u16],
        tint: Tint,
        slot_tint: Tint,
        place: Placement,
    ) -> (added: bool)
        requires
            (Geometry { points: points@, uvs: uvs@, triangles: triangles@, tint }).wf(),
        ensures
            ({
                let g = Geometry { points: points@, uvs: uvs@, triangles: triangles@, tint };
                &&& final(self)@ == old(self)@.push(g, place, slot_tint)
                &&& added == old(self)@.has_room(g)
            }),
    {
        proof {
            use_type_invariant(&*self);
        }
        let ghost g = Geometry { points: points@, uvs: uvs@, triangles: triangles@, tint };
        let with_uv: usize = uvs.len() / 2;
        let with_point: usize = points.len() / 2;
        let count: usize = if with_uv <= with_point {
            with_uv
        } else {
            with_point
        };
        let held: usize = self.vertices.len();
        if count > 0xFFFF_FFFF - held {
            return false;
        }
        let color = modulate(slot_tint, tint);
        let scale: i128 = place.scale as i128;
        let mut fresh: Vec<Vertex> = Vec::new();
        let mut i: usize = 0;
        while i < count
            invariant
                i <= count,
                count == g.vertex_count(),
                2 * count <= points.len(),
                2 * count <= uvs.len(),
                g == (Geometry { points: points@, uvs: uvs@, triangles: triangles@, tint }),
                scale == place.scale,
                color == modulate_spec(slot_tint, tint),
                fresh@ == placed_vertices(g, place, slot_tint).take(i as int),
            decreases count - i,
        {
            let px: i128 = points[2 * i] as i128;
            let py: i128 = points[2 * i + 1] as i128;
            assert(-0x8000_0000_0000_0000 <= px * scale <= 0x8000_0000_0000_0000) by (nonlinear_arith)
                requires
                    -0x8000_0000 <= px <= 0x8000_0000,
                    0 <= scale <= 0x1_0000_0000,
            ;
            assert(-0x8000_0000_0000_0000 <= (-py) * scale <= 0x8000_0000_0000_0000)
                by (nonlinear_arith)
                requires
                    -0x8000_0000 <= py <= 0x8000_0000,
                    0 <= scale <= 0x1_0000_0000,
            ;
            let vertex = Vertex {
                x: px * scale + (place.x as i128) * 0x1_0000,
                y: (-py) * scale + (place.y as i128) * 0x1_0000,
                u: uvs[2 * i],
                v: uvs[2 * i + 1],
                color,
            };
            proof {
                assert(vertex == placed_vertex(g, i as int, place, color));
                assert(placed_vertices(g, place, slot_tint).take(i + 1) =~= placed_vertices(
                    g,
                    place,
                    slot_tint,
                ).take(i as int).push(vertex));
            }
            fresh.push(vertex);
            i = i + 1;
        }
        proof {
            assert(placed_vertices(g, place, slot_tint).take(count as int) =~= placed_vertices(
                g,
                place,
                slot_tint,
            ));
        }
        let mut shifted: Vec<u32> = Vec::new();
        let mut j: usize = 0;
        while j < triangles.len()
            invariant
                j <= triangles.len(),
                g.triangles == triangles@,
                g.wf(),
                count == g.vertex_count(),
                held + count <= 0xFFFF_FFFF,
                shifted@ == shifted_indices(triangles@, held as nat).take(j as int),
            decreases triangles.len() - j,
        {
            assert((g.triangles[j as int] as int) < g.vertex_count());
            let index: u32 = held as u32 + triangles[j] as u32;
            proof {
                assert(shifted_indices(triangles@, held as nat).take(j + 1) =~= shifted_indices(
                    triangles@,
                    held as nat,
                ).take(j as int).push(index));
            }
            shifted.push(index);
            j = j + 1;
        }
        proof {
            assert(shifted_indices(triangles@, held as nat).take(triangles.len() as int)
                =~= shifted_indices(triangles@, held as nat));
            lemma_push_extends(self@, g, place, slot_tint);
        }
        // The batch is taken apart and put together again, indices out first
        // and in last, so that it is valid at every step.
        let mut indices: Vec<u32> = Vec::new();
        let mut vertices: Vec<Vertex> = Vec::new();
        std::mem::swap(&mut self.indices, &mut indices);
        std::mem::swap(&mut self.vertices, &mut vertices);
        vertices.append(&mut fresh);
        indices.append(&mut shifted);
        std::mem::swap(&mut self.vertices, &mut vertices);
        std::mem::swap(&mut self.indices, &mut indices);
        true
    }

    /// Adds what `slot` shows behind what the batch holds. Returns whether
    /// anything was added: a slot with no attachment, or with one that is
    /// neither region nor mesh, adds nothing, and neither does one whose
    /// vertices would take the batch beyond 32-bit indices.
    pub fn push_slot(&mut self, slot: &SlotPose, place: Placement) -> (added: bool)
        ensures
            final(self)@ == old(self)@.push_slot(*slot, place),
            final(self)@.wf(),
            added == (slot.geometry() is Some && old(self)@.has_room(slot.geometry()->0)),
            slot.geometry() is Some ==> slot.geometry()->0.wf(),
    {
        proof {
            use_type_invariant(&*self);
        }
        let added = match &slot.attachment {
            Some(Attachment::Region(region)) => {
                let quad: [u16; 6] = [0, 1, 2, 2, 3, 0];
                assert(quad@ =~= quad_triangles());
                let one: i32 = 0x1_0000;
                let uvs: [i32; 8] = [one, one, 0, one, 0, 0, one, 0];
                assert(uvs@ =~= unit_square_uvs());
                self.push_geometry(
                    region.points.as_slice(),
                    uvs.as_slice(),
                    quad.as_slice(),
                    region.tint,
                    slot.tint,
                    place,
                )
            },
            Some(Attachment::Mesh(mesh)) => {
                proof {
                    use_type_invariant(mesh);
                }
                self.push_geometry(
                    mesh.points.as_slice(),
                    mesh.uvs.as_slice(),
                    mesh.triangles.as_slice(),
                    mesh.tint,
                    slot.tint,
                    place,
                )
            },
            Some(Attachment::Other) => false,
            None => false,
        };
        proof {
            use_type_invariant(&*self);
        }
        added
    }

    /// Adds the slots in the order given, which is the order in which they
    /// are painted: first to last, back to front.
    pub fn draw(&mut self, slots: &Vec<SlotPose>, place: Placement)
        ensures
            final(self)@ == old(self)@.draw(slots@, place),
            final(self)@.wf(),
            slots_wf(slots@),
    {
        proof {
            use_type_invariant(&*self);
        }
        let mut i: usize = 0;
        proof {
            assert(slots@.take(0) =~= Seq::<SlotPose>::empty());
        }
        while i < slots.len()
            invariant
                i <= slots.len(),
                self@ == old(self)@.draw(slots@.take(i as int), place),
                self@.wf(),
                slots_wf(slots@.take(i as int)),
            decreases slots.len() - i,
        {
            proof {
                assert(slots@.take(i + 1).drop_last() =~= slots@.take(i as int));
                assert(slots@.take(i + 1).last() == slots@[i as int]);
            }
            self.push_slot(&slots[i], place);
            proof {
                let longer = slots@.take(i + 1);
                assert forall|k: int|
                    0 <= k < longer.len() && (#[trigger] longer[k]).geometry() is Some implies longer[k].geometry()->0.wf() by {
                    if k < i {
                        assert(longer[k] == slots@.take(i as int)[k]);
                    }
                }
            }
            i = i + 1;
        }
        proof {
            assert(slots@.take(slots.len() as int) =~= slots@);
        }
    }

    /// The vertices, in the order in which they were added.
    pub fn vertices(&self) -> (out: &Vec<Vertex>)
        ensures
            out@ == self@.vertices,
    {
        &self.vertices
    }

    /// The triangle indices, three to a triangle, each below the number of
    /// vertices.
    pub fn indices(&self) -> (out: &Vec<u32>)
        ensures
            out@ == self@.indices,
            self@.wf(),
    {
        proof {
            use_type_invariant(self);
        }
        &self.indices
    }

    /// The texture that the batch is painted with.
    pub fn texture(&self) -> (id: u64)
        ensures
            id == self@.texture,
    {
        self.texture
    }
}

} // verus!
