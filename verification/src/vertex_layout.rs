use vstd::prelude::*;

verus! {

/// Floats per point: `[x, y, z, value]`.
pub const FLOATS_PER_POINT: usize = 4;

/// Floats per line or polygon vertex: `[x, y, z, r, g, b, a, size]`.
pub const FLOATS_PER_COLOR_VERTEX: usize = 8;

/// Bytes in one `f32`.
pub const F32_BYTES: usize = 4;

/// One vertex attribute: its shader location, how many floats it reads,
/// and where in the vertex it starts.
#[derive(Clone, Copy, Debug, PartialEq, Eq, Structural)]
pub struct VertexAttribute {
    pub location: u32,
    pub components: i32,
    pub offset_bytes: usize,
}

/// How the floats of one vertex feed the shader: a position at location 0,
/// one more attribute at location 1, and, for lines and polygons, the
/// size/thickness at location 2.
#[derive(Clone, Copy, Debug, PartialEq, Eq, Structural)]
pub struct VertexLayout {
    pub stride_bytes: i32,
    pub position: VertexAttribute,
    pub attribute: VertexAttribute,
    pub size: Option<VertexAttribute>,
}

/// The position: three floats at location 0, from the start of the vertex.
pub open spec fn position_attribute() -> VertexAttribute {
    VertexAttribute { location: 0, components: 3, offset_bytes: 0 }
}

/// Point vertices, `[x, y, z, value]`: the position, then the scalar value
/// that the point shader maps to a color (location 1); 16 bytes each.
pub open spec fn point_layout() -> VertexLayout {
    VertexLayout {
        stride_bytes: 16,
        position: position_attribute(),
        attribute: VertexAttribute { location: 1, components: 1, offset_bytes: 12 },
        size: None,
    }
}

/// Line and polygon vertices, `[x, y, z, r, g, b, a, size]`: the position,
/// the RGBA color (location 1), and the size/thickness (location 2);
/// 32 bytes each.
pub open spec fn color_layout() -> VertexLayout {
    VertexLayout {
        stride_bytes: 32,
        position: position_attribute(),
        attribute: VertexAttribute { location: 1, components: 4, offset_bytes: 12 },
        size: Some(VertexAttribute { location: 2, components: 1, offset_bytes: 28 }),
    }
}

/// Layout of a point vertex.
pub fn point_vertex_layout() -> (l: VertexLayout)
    ensures
        l == point_layout(),
{
    VertexLayout {
        stride_bytes: (FLOATS_PER_POINT * F32_BYTES) as i32,
        position: VertexAttribute { location: 0, components: 3, offset_bytes: 0 },
        attribute: VertexAttribute { location: 1, components: 1, offset_bytes: 3 * F32_BYTES },
        size: None,
    }
}

/// Layout of a line or polygon vertex.
pub fn color_vertex_layout() -> (l: VertexLayout)
    ensures
        l == color_layout(),
{
    VertexLayout {
        stride_bytes: (FLOATS_PER_COLOR_VERTEX * F32_BYTES) as i32,
        position: VertexAttribute { location: 0, components: 3, offset_bytes: 0 },
        attribute: VertexAttribute { location: 1, components: 4, offset_bytes: 3 * F32_BYTES },
        size: Some(
            VertexAttribute { location: 2, components: 1, offset_bytes: 7 * F32_BYTES },
        ),
    }
}

/// Whether attribute `a` reads float `k` of the vertex.
pub open spec fn reads_float(a: VertexAttribute, k: int) -> bool {
    a.offset_bytes <= k * F32_BYTES < a.offset_bytes + a.components * F32_BYTES
}

/// How many of the layout's attributes read float `k` of the vertex.
pub open spec fn readers_of_float(l: VertexLayout, k: int) -> int {
    (if reads_float(l.position, k) { 1int } else { 0int }) + (if reads_float(l.attribute, k) {
        1int
    } else {
        0int
    }) + (match l.size {
        Some(s) => if reads_float(s, k) { 1int } else { 0int },
        None => 0int,
    })
}

/// The layouts agree with the vertex formats and with how vertices are
/// counted: the stride is the floats per vertex (the divisor used when
/// counting vertices) times four bytes, every float of a vertex is read by
/// exactly one attribute, and nothing past the vertex is read. In
/// particular the size/thickness of a line or polygon vertex (its eighth
/// float) reaches the shader at location 2.
pub proof fn lemma_layouts_read_every_float()
    ensures
        point_layout().stride_bytes == FLOATS_PER_POINT * F32_BYTES,
        color_layout().stride_bytes == FLOATS_PER_COLOR_VERTEX * F32_BYTES,
        forall|k: int| 0 <= k < FLOATS_PER_POINT ==> #[trigger] readers_of_float(point_layout(), k) == 1,
        forall|k: int|
            0 <= k < FLOATS_PER_COLOR_VERTEX ==> #[trigger] readers_of_float(color_layout(), k) == 1,
        forall|k: int| k >= FLOATS_PER_POINT ==> #[trigger] readers_of_float(point_layout(), k) == 0,
        forall|k: int|
            k >= FLOATS_PER_COLOR_VERTEX ==> #[trigger] readers_of_float(color_layout(), k) == 0,
        color_layout().size matches Some(s) && s.location == 2 && reads_float(s, 7),
{
}

} // verus!
