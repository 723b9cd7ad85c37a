//! Mesh ingestion: the vertex layout, the bounding box of a point set, and the
//! merging of parsed sub-meshes into one vertex list and one index list.
use vstd::prelude::*;
use crate::bytes::{cast_words, in_memory, is_memory_of};
use crate::scalar::{
    greatest, has_number, least, lemma_greatest, lemma_least, lemma_least_le_greatest,
    lemma_least_same_greatest, lemma_order_independent, Scalar,
};

verus! {

/// Three coordinates.
#[derive(Clone, Copy, Debug, PartialEq, Eq, Structural)]
pub struct Vector3 {
    pub x: Scalar,
    pub y: Scalar,
    pub z: Scalar,
}

impl Vector3 {
    /// No coordinate is a NaN.
    pub open spec fn is_numeric(self) -> bool {
        !self.x.is_nan() && !self.y.is_nan() && !self.z.is_nan()
    }

    /// The two are the same point: equal as numbers in every coordinate.
    pub open spec fn coincides(self, other: Vector3) -> bool {
        self.x.same(other.x) && self.y.same(other.y) && self.z.same(other.z)
    }

    /// The coordinate on axis 0 (x), 1 (y) or 2 (z).
    pub open spec fn axis(self, k: int) -> Scalar {
        if k == 0 {
            self.x
        } else if k == 1 {
            self.y
        } else {
            self.z
        }
    }

    /// The lesser coordinate on every axis.
    pub open spec fn spec_min(self, other: Vector3) -> Vector3 {
        Vector3 { x: self.x.min(other.x), y: self.y.min(other.y), z: self.z.min(other.z) }
    }

    /// The greater coordinate on every axis.
    pub open spec fn spec_max(self, other: Vector3) -> Vector3 {
        Vector3 { x: self.x.max(other.x), y: self.y.max(other.y), z: self.z.max(other.z) }
    }

    pub fn new(x: Scalar, y: Scalar, z: Scalar) -> (r: Vector3)
        ensures
            r == (Vector3 { x, y, z }),
    {
        Vector3 { x, y, z }
    }

    #[verifier::when_used_as_spec(spec_min)]
    pub fn min(self, other: Vector3) -> (r: Vector3)
        ensures
            r == self.spec_min(other),
    {
        Vector3 { x: self.x.min(other.x), y: self.y.min(other.y), z: self.z.min(other.z) }
    }

    #[verifier::when_used_as_spec(spec_max)]
    pub fn max(self, other: Vector3) -> (r: Vector3)
        ensures
            r == self.spec_max(other),
    {
        Vector3 { x: self.x.max(other.x), y: self.y.max(other.y), z: self.z.max(other.z) }
    }
}

/// One corner of the mesh as the vertex buffer holds it: position, then
/// normal, three single-precision numbers each.
#[derive(Clone, Copy, Debug, PartialEq, Eq, Structural)]
pub struct Vertex {
    pub position: Vector3,
    pub normal: Vector3,
}

/// How the numbers of one vertex attribute are stored.
#[derive(Clone, Copy, Debug, PartialEq, Eq, Structural)]
pub enum VertexFormat {
    /// Three single-precision numbers.
    Float32x3,
}

impl VertexFormat {
    /// The bytes one attribute of this format takes.
    pub open spec fn spec_size(self) -> u64 {
        12
    }

    #[verifier::when_used_as_spec(spec_size)]
    pub fn size(self) -> (r: u64)
        ensures
            r == self.spec_size(),
    {
        12
    }
}

/// Where one attribute of a vertex lies in the buffer and which shader input
/// it feeds.
#[derive(Clone, Copy, Debug, PartialEq, Eq, Structural)]
pub struct VertexAttribute {
    pub format: VertexFormat,
    pub offset: u64,
    pub shader_location: u32,
}

/// Whether a buffer goes on by one element with every vertex or with every
/// instance.
#[derive(Clone, Copy, Debug, PartialEq, Eq, Structural)]
pub enum VertexStepMode {
    Vertex,
    Instance,
}

/// The layout of the vertex buffer: one [`Vertex`] every `array_stride`
/// bytes, its attributes at their offsets.
#[derive(Clone, Copy, Debug, PartialEq, Eq, Structural)]
pub struct VertexBufferLayout {
    pub array_stride: u64,
    pub step_mode: VertexStepMode,
    pub position: VertexAttribute,
    pub normal: VertexAttribute,
}

impl VertexBufferLayout {
    /// The attributes follow one another without gap or overlap, starting at
    /// the vertex's first byte, and the stride is their total size.
    pub open spec fn is_packed(self) -> bool {
        &&& self.position.offset == 0
        &&& self.normal.offset == self.position.offset + self.position.format.size()
        &&& self.array_stride == self.normal.offset + self.normal.format.size()
    }
}

impl Vertex {
    /// The layout of the vertex buffer: one element of 24 bytes to a vertex,
    /// the position first, at shader location 0, and the normal after it, at
    /// location 1.
    pub open spec fn layout() -> VertexBufferLayout {
        VertexBufferLayout {
            array_stride: 24,
            step_mode: VertexStepMode::Vertex,
            position: VertexAttribute {
                format: VertexFormat::Float32x3,
                offset: 0,
                shader_location: 0,
            },
            normal: VertexAttribute {
                format: VertexFormat::Float32x3,
                offset: 12,
                shader_location: 1,
            },
        }
    }

    /// The words of the vertex as the buffer holds them: the three
    /// coordinates of the position, then those of the normal.
    pub open spec fn words(self) -> Seq<u32> {
        seq![
            self.position.x.bits,
            self.position.y.bits,
            self.position.z.bits,
            self.normal.x.bits,
            self.normal.y.bits,
            self.normal.z.bits,
        ]
    }

    /// The layout of the vertex buffer.
    pub fn desc() -> (r: VertexBufferLayout)
        ensures
            r == Vertex::layout(),
            r.is_packed(),
    {
        let position = VertexAttribute {
            format: VertexFormat::Float32x3,
            offset: 0,
            shader_location: 0,
        };
        let normal = VertexAttribute {
            format: VertexFormat::Float32x3,
            offset: position.offset + position.format.size(),
            shader_location: 1,
        };
        VertexBufferLayout {
            array_stride: normal.offset + normal.format.size(),
            step_mode: VertexStepMode::Vertex,
            position,
            normal,
        }
    }
}

/// The axis-aligned extent of a point set.
#[derive(Clone, Copy, Debug, PartialEq, Eq, Structural)]
pub struct BoundingBox {
    pub min: Vector3,
    pub max: Vector3,
}

impl BoundingBox {
    /// The box of no point at all: both corners at the origin.
    pub open spec fn spec_empty() -> BoundingBox {
        let origin = Vector3 { x: Scalar { bits: 0 }, y: Scalar { bits: 0 }, z: Scalar { bits: 0 } };
        BoundingBox { min: origin, max: origin }
    }

    /// The box of a single point.
    pub open spec fn spec_at(p: Vector3) -> BoundingBox {
        BoundingBox { min: p, max: p }
    }

    /// This box, widened to hold `p` too.
    pub open spec fn spec_grown(self, p: Vector3) -> BoundingBox {
        BoundingBox { min: self.min.min(p), max: self.max.max(p) }
    }

    /// The box of a point sequence: on every axis, from the least coordinate
    /// to the greatest.
    pub open spec fn of(points: Seq<Vector3>) -> BoundingBox {
        BoundingBox {
            min: Vector3 {
                x: least(coordinates(points, 0)),
                y: least(coordinates(points, 1)),
                z: least(coordinates(points, 2)),
            },
            max: Vector3 {
                x: greatest(coordinates(points, 0)),
                y: greatest(coordinates(points, 1)),
                z: greatest(coordinates(points, 2)),
            },
        }
    }

    /// The box is a single point: its corners coincide.
    pub open spec fn spec_is_point(self) -> bool {
        self.min.coincides(self.max)
    }

    /// On every axis the lower corner is not above the upper one.
    pub open spec fn is_ordered(self) -> bool {
        self.min.x.le(self.max.x) && self.min.y.le(self.max.y) && self.min.z.le(self.max.z)
    }

    /// On every axis `p` lies between the corners.
    pub open spec fn encloses(self, p: Vector3) -> bool {
        &&& self.min.x.le(p.x) && p.x.le(self.max.x)
        &&& self.min.y.le(p.y) && p.y.le(self.max.y)
        &&& self.min.z.le(p.z) && p.z.le(self.max.z)
    }

    /// The two boxes have the same corners as numbers; where a corner of one
    /// has a NaN for a coordinate, so has the other.
    pub open spec fn agrees(self, other: BoundingBox) -> bool {
        &&& agree(self.min.x, other.min.x) && agree(self.max.x, other.max.x)
        &&& agree(self.min.y, other.min.y) && agree(self.max.y, other.max.y)
        &&& agree(self.min.z, other.min.z) && agree(self.max.z, other.max.z)
    }

    #[verifier::when_used_as_spec(spec_empty)]
    pub fn empty() -> (r: BoundingBox)
        ensures
            r == BoundingBox::spec_empty(),
    {
        let origin = Vector3 {
            x: Scalar { bits: 0 },
            y: Scalar { bits: 0 },
            z: Scalar { bits: 0 },
        };
        BoundingBox { min: origin, max: origin }
    }

    #[verifier::when_used_as_spec(spec_at)]
    pub fn at(p: Vector3) -> (r: BoundingBox)
        ensures
            r == BoundingBox::spec_at(p),
    {
        BoundingBox { min: p, max: p }
    }

    #[verifier::when_used_as_spec(spec_grown)]
    pub fn grown(self, p: Vector3) -> (r: BoundingBox)
        ensures
            r == self.spec_grown(p),
    {
        BoundingBox { min: self.min.min(p), max: self.max.max(p) }
    }

    #[verifier::when_used_as_spec(spec_is_point)]
    pub fn is_point(self) -> (r: bool)
        ensures
            r == self.spec_is_point(),
    {
        self.min.x.same(self.max.x) && self.min.y.same(self.max.y) && self.min.z.same(
            self.max.z,
        )
    }
}

/// The coordinates of the points on axis `k`, in order.
pub open spec fn coordinates(points: Seq<Vector3>, k: int) -> Seq<Scalar> {
    Seq::new(points.len(), |i: int| points[i].axis(k))
}

/// Both are NaNs, or both are the same number.
pub open spec fn agree(a: Scalar, b: Scalar) -> bool {
    if a.is_nan() {
        b.is_nan()
    } else {
        a.same(b)
    }
}

/// Every point of `a` is a point of `b`.
pub open spec fn points_among(a: Seq<Vector3>, b: Seq<Vector3>) -> bool {
    forall|i: int| 0 <= i < a.len() ==> b.contains(#[trigger] a[i])
}

/// The box of a sequence with one more point is the box of that point alone,
/// if it is the first, and else the box so far widened by it.
pub proof fn lemma_box_push(points: Seq<Vector3>, p: Vector3)
    ensures
        BoundingBox::of(points.push(p)) == if points.len() == 0 {
            BoundingBox::at(p)
        } else {
            BoundingBox::of(points).grown(p)
        },
{
    assert forall|k: int| 0 <= k < 3 implies {
        let longer = #[trigger] coordinates(points.push(p), k);
        &&& longer.len() == points.len() + 1
        &&& longer.drop_last() == coordinates(points, k)
        &&& longer.last() == p.axis(k)
    } by {
        assert(coordinates(points.push(p), k).drop_last() =~= coordinates(points, k));
    }
    assert(coordinates(points.push(p), 0).len() > 0);
    assert(coordinates(points.push(p), 1).len() > 0);
    assert(coordinates(points.push(p), 2).len() > 0);
}

/// Every point without a NaN lies inside the box of its sequence.
pub proof fn lemma_box_encloses(points: Seq<Vector3>, i: int)
    requires
        0 <= i < points.len(),
        points[i].is_numeric(),
    ensures
        BoundingBox::of(points).encloses(points[i]),
{
    assert forall|k: int| 0 <= k < 3 implies {
        let c = #[trigger] coordinates(points, k);
        least(c).le(points[i].axis(k)) && points[i].axis(k).le(greatest(c))
    } by {
        let c = coordinates(points, k);
        lemma_least(c);
        lemma_greatest(c);
        assert(c[i] == points[i].axis(k));
    }
    assert(coordinates(points, 0).len() > 0);
    assert(coordinates(points, 1).len() > 0);
    assert(coordinates(points, 2).len() > 0);
}

/// Every coordinate of a corner of the box is that coordinate of one of the
/// points.
pub proof fn lemma_box_corners_are_coordinates(points: Seq<Vector3>, k: int)
    requires
        points.len() > 0,
        0 <= k < 3,
    ensures
        exists|i: int|
            0 <= i < points.len() && (#[trigger] points[i]).axis(k) == BoundingBox::of(
                points,
            ).min.axis(k),
        exists|i: int|
            0 <= i < points.len() && (#[trigger] points[i]).axis(k) == BoundingBox::of(
                points,
            ).max.axis(k),
{
    let c = coordinates(points, k);
    lemma_least(c);
    lemma_greatest(c);
    let a = choose|a: int| 0 <= a < c.len() && c[a] == least(c);
    assert(points[a].axis(k) == BoundingBox::of(points).min.axis(k));
    let b = choose|b: int| 0 <= b < c.len() && c[b] == greatest(c);
    assert(points[b].axis(k) == BoundingBox::of(points).max.axis(k));
}

/// If on every axis some point has a number, the lower corner of the box is
/// not above the upper one on any axis.
pub proof fn lemma_box_is_ordered(points: Seq<Vector3>)
    requires
        has_number(coordinates(points, 0)),
        has_number(coordinates(points, 1)),
        has_number(coordinates(points, 2)),
    ensures
        BoundingBox::of(points).is_ordered(),
{
    lemma_least_le_greatest(coordinates(points, 0));
    lemma_least_le_greatest(coordinates(points, 1));
    lemma_least_le_greatest(coordinates(points, 2));
}

/// The box of points without a NaN is a single point exactly when all the
/// points coincide.
pub proof fn lemma_box_is_point(points: Seq<Vector3>)
    requires
        points.len() > 0,
        forall|i: int| 0 <= i < points.len() ==> (#[trigger] points[i]).is_numeric(),
    ensures
        BoundingBox::of(points).is_point() <==> forall|i: int, j: int|
            0 <= i < points.len() && 0 <= j < points.len() ==> (#[trigger] points[i]).coincides(
                #[trigger] points[j],
            ),
{
    lemma_axis_is_point(points, 0);
    lemma_axis_is_point(points, 1);
    lemma_axis_is_point(points, 2);
    if BoundingBox::of(points).is_point() {
        assert forall|i: int, j: int|
            0 <= i < points.len() && 0 <= j < points.len() implies (#[trigger] points[i]).coincides(
            #[trigger] points[j],
        ) by {
            assert(same_on_axis(points, 0, i, j));
            assert(same_on_axis(points, 1, i, j));
            assert(same_on_axis(points, 2, i, j));
        }
    } else {
        let k = if !all_same_on_axis(points, 0) {
            0
        } else if !all_same_on_axis(points, 1) {
            1
        } else {
            2int
        };
        let (i, j) = choose|i: int, j: int|
            0 <= i < points.len() && 0 <= j < points.len() && !same_on_axis(points, k, i, j);
        assert(!points[i].coincides(points[j]));
    }
}

/// Points `i` and `j` have the same number as their coordinate on axis `k`.
spec fn same_on_axis(points: Seq<Vector3>, k: int, i: int, j: int) -> bool {
    points[i].axis(k).same(points[j].axis(k))
}

/// All points have the same number as their coordinate on axis `k`.
spec fn all_same_on_axis(points: Seq<Vector3>, k: int) -> bool {
    forall|i: int, j: int|
        0 <= i < points.len() && 0 <= j < points.len() ==> #[trigger] same_on_axis(points, k, i, j)
}

proof fn lemma_axis_is_point(points: Seq<Vector3>, k: int)
    requires
        points.len() > 0,
        0 <= k < 3,
        forall|i: int| 0 <= i < points.len() ==> (#[trigger] points[i]).is_numeric(),
    ensures
        BoundingBox::of(points).min.axis(k).same(BoundingBox::of(points).max.axis(k))
            <==> all_same_on_axis(points, k),
{
    let c = coordinates(points, k);
    lemma_least_same_greatest(c);
    assert(points[0].is_numeric());
    assert(!c[0].is_nan());
    if least(c).same(greatest(c)) {
        assert forall|i: int, j: int|
            0 <= i < points.len() && 0 <= j < points.len() implies #[trigger] same_on_axis(
            points,
            k,
            i,
            j,
        ) by {
            assert(points[i].is_numeric() && points[j].is_numeric());
            assert(c[i].same(c[j]));
        }
    } else {
        let (i, j) = choose|i: int, j: int|
            0 <= i < c.len() && 0 <= j < c.len() && !(#[trigger] c[i]).is_nan() && !(
            #[trigger] c[j]).is_nan() && !c[i].same(c[j]);
        assert(!same_on_axis(points, k, i, j));
    }
}

/// The box does not depend on the order of the points, nor on how often each
/// occurs: two sequences of the same points have boxes that agree.
pub proof fn lemma_box_order_independent(a: Seq<Vector3>, b: Seq<Vector3>)
    requires
        a.len() > 0,
        b.len() > 0,
        points_among(a, b),
        points_among(b, a),
    ensures
        BoundingBox::of(a).agrees(BoundingBox::of(b)),
{
    lemma_axis_order_independent(a, b, 0);
    lemma_axis_order_independent(a, b, 1);
    lemma_axis_order_independent(a, b, 2);
}

proof fn lemma_axis_order_independent(a: Seq<Vector3>, b: Seq<Vector3>, k: int)
    requires
        a.len() > 0,
        b.len() > 0,
        points_among(a, b),
        points_among(b, a),
    ensures
        agree(least(coordinates(a, k)), least(coordinates(b, k))),
        agree(greatest(coordinates(a, k)), greatest(coordinates(b, k))),
{
    let ca = coordinates(a, k);
    let cb = coordinates(b, k);
    assert forall|i: int| 0 <= i < ca.len() implies cb.contains(#[trigger] ca[i]) by {
        assert(b.contains(a[i]));
        let j = choose|j: int| 0 <= j < b.len() && b[j] == a[i];
        assert(cb[j] == ca[i]);
    }
    assert forall|j: int| 0 <= j < cb.len() implies ca.contains(#[trigger] cb[j]) by {
        assert(a.contains(b[j]));
        let i = choose|i: int| 0 <= i < a.len() && a[i] == b[j];
        assert(ca[i] == cb[j]);
    }
    lemma_order_independent(ca, cb);
    lemma_least(ca);
    lemma_least(cb);
    lemma_greatest(ca);
    lemma_greatest(cb);
}

/// One parsed object of a model file: flat coordinate lists, three numbers to
/// a vertex, and indices into its own vertices, three to a triangle.
#[derive(Clone, Debug, PartialEq, Eq)]
pub struct SubMesh {
    pub positions: Vec<Scalar>,
    pub normals: Vec<Scalar>,
    pub indices: Vec<u32>,
}

/// Why a parsed model cannot be made into a mesh.
#[derive(Clone, Copy, Debug, PartialEq, Eq, Structural)]
pub enum LoadError {
    /// The sub-mesh has fewer normals than vertices.
    MissingNormals { submesh: usize },
    /// The sub-mesh brings the number of vertices above what an index can
    /// address.
    TooManyVertices { submesh: usize },
    /// The sub-mesh brings the number of indices above what one draw call can
    /// count.
    TooManyIndices { submesh: usize },
    /// An index of the sub-mesh refers to no vertex of it.
    IndexOutOfRange { submesh: usize },
}

impl SubMesh {
    /// The number of whole vertices in the position list.
    pub open spec fn vertex_count(self) -> nat {
        self.positions@.len() / 3
    }

    /// Vertex `i`: the `i`-th triple of positions with the `i`-th triple of
    /// normals.
    pub open spec fn vertex(self, i: int) -> Vertex {
        Vertex {
            position: Vector3 {
                x: self.positions@[3 * i],
                y: self.positions@[3 * i + 1],
                z: self.positions@[3 * i + 2],
            },
            normal: Vector3 {
                x: self.normals@[3 * i],
                y: self.normals@[3 * i + 1],
                z: self.normals@[3 * i + 2],
            },
        }
    }

    /// All vertices, in order.
    pub open spec fn vertices(self) -> Seq<Vertex> {
        Seq::new(self.vertex_count(), |i: int| self.vertex(i))
    }

    /// Every vertex has a normal.
    pub open spec fn has_normals(self) -> bool {
        self.normals@.len() >= 3 * self.vertex_count()
    }

    /// Every index refers to a vertex of this sub-mesh.
    pub open spec fn indices_in_range(self) -> bool {
        forall|j: int| 0 <= j < self.indices@.len() ==> self.indices@[j] < self.vertex_count()
    }

    /// The indices, each raised by `offset`.
    pub open spec fn shifted_indices(self, offset: nat) -> Seq<int> {
        Seq::new(self.indices@.len(), |j: int| self.indices@[j] + offset)
    }
}

/// The number of vertices in all the sub-meshes together.
pub open spec fn total_vertices(models: Seq<SubMesh>) -> nat
    decreases models.len(),
{
    if models.len() == 0 {
        0
    } else {
        total_vertices(models.drop_last()) + models.last().vertex_count()
    }
}

/// The number of indices in all the sub-meshes together.
pub open spec fn total_indices(models: Seq<SubMesh>) -> nat
    decreases models.len(),
{
    if models.len() == 0 {
        0
    } else {
        total_indices(models.drop_last()) + models.last().indices@.len()
    }
}

/// The vertices of all the sub-meshes, one sub-mesh after the other.
pub open spec fn merged_vertices(models: Seq<SubMesh>) -> Seq<Vertex>
    decreases models.len(),
{
    if models.len() == 0 {
        Seq::empty()
    } else {
        merged_vertices(models.drop_last()) + models.last().vertices()
    }
}

/// The indices of all the sub-meshes, one sub-mesh after the other, those of
/// each sub-mesh raised by the number of vertices before it, so that they
/// refer to the same vertices in the merged list.
pub open spec fn merged_indices(models: Seq<SubMesh>) -> Seq<int>
    decreases models.len(),
{
    if models.len() == 0 {
        Seq::empty()
    } else {
        merged_indices(models.drop_last()) + models.last().shifted_indices(
            total_vertices(models.drop_last()),
        )
    }
}

/// What is wrong with the last sub-mesh, given those before it, if anything.
pub open spec fn fault_of_last(models: Seq<SubMesh>) -> Option<LoadError>
    recommends
        models.len() > 0,
{
    let submesh = (models.len() - 1) as usize;
    let last = models.last();
    if !last.has_normals() {
        Some(LoadError::MissingNormals { submesh })
    } else if total_vertices(models) > u32::MAX {
        Some(LoadError::TooManyVertices { submesh })
    } else if total_indices(models) > u32::MAX {
        Some(LoadError::TooManyIndices { submesh })
    } else if !last.indices_in_range() {
        Some(LoadError::IndexOutOfRange { submesh })
    } else {
        None
    }
}

/// The first fault met when the sub-meshes are taken in order, if any.
pub open spec fn first_fault(models: Seq<SubMesh>) -> Option<LoadError>
    decreases models.len(),
{
    if models.len() == 0 {
        None
    } else {
        match first_fault(models.drop_last()) {
            Some(e) => Some(e),
            None => fault_of_last(models),
        }
    }
}

/// The positions of a vertex list.
pub open spec fn positions_of(vertices: Seq<Vertex>) -> Seq<Vector3> {
    Seq::new(vertices.len(), |i: int| vertices[i].position)
}

/// A triangle mesh ready for upload: one vertex list, one index list, and
/// the extent of the vertices.
#[derive(Clone, Debug, PartialEq, Eq)]
pub struct Mesh {
    pub vertices: Vec<Vertex>,
    pub indices: Vec<u32>,
    pub bounding_box: BoundingBox,
    /// The number of indices to draw.
    pub n: u32,
}

impl Mesh {
    /// Every index refers to a vertex, `n` counts the indices, and the box is
    /// that of the vertex positions.
    pub open spec fn wf(self) -> bool {
        &&& self.vertices@.len() <= u32::MAX
        &&& self.n == self.indices@.len()
        &&& forall|j: int| 0 <= j < self.indices@.len() ==> self.indices@[j] < self.vertices@.len()
        &&& self.bounding_box == BoundingBox::of(positions_of(self.vertices@))
    }

    /// This mesh is the sub-meshes merged.
    pub open spec fn is_merge_of(self, models: Seq<SubMesh>) -> bool {
        &&& self.vertices@ == merged_vertices(models)
        &&& as_ints(self.indices@) == merged_indices(models)
    }

    /// Merges the parsed sub-meshes of a model into one mesh.
    ///
    /// The vertices of the sub-meshes follow one another; the indices of each
    /// sub-mesh are raised by the number of vertices before it. The bounding
    /// box starts at the first vertex and is widened by every later one.
    /// The sub-meshes are checked in order, and the first fault is returned.
    pub fn from_obj(models: &Vec<SubMesh>) -> (r: Result<Mesh, LoadError>)
        ensures
            match first_fault(models@) {
                Some(e) => r == Err::<Mesh, LoadError>(e),
                None => {
                    &&& r is Ok
                    &&& r->Ok_0.wf()
                    &&& r->Ok_0.is_merge_of(models@)
                    &&& r->Ok_0.vertices@.len() == total_vertices(models@)
                    &&& r->Ok_0.indices@.len() == total_indices(models@)
                },
            },
    {
        let mut vertices: Vec<Vertex> = Vec::new();
        let mut indices: Vec<u32> = Vec::new();
        let mut off: u32 = 0;
        let mut bounding_box = BoundingBox::empty();
        let mut first = true;
        let mut k: usize = 0;
        proof {
            assert(as_ints(indices@) =~= merged_indices(models@.take(0)));
            assert(positions_of(vertices@) =~= Seq::empty());
        }
        while k < models.len()
            invariant
                k <= models.len(),
                first_fault(models@.take(k as int)) is None,
                vertices@ == merged_vertices(models@.take(k as int)),
                as_ints(indices@) == merged_indices(models@.take(k as int)),
                off == total_vertices(models@.take(k as int)),
                vertices@.len() == off,
                indices@.len() == total_indices(models@.take(k as int)),
                indices@.len() <= u32::MAX,
                forall|j: int| 0 <= j < indices@.len() ==> indices@[j] < off,
                first == (vertices@.len() == 0),
                bounding_box == BoundingBox::of(positions_of(vertices@)),
            decreases models.len() - k,
        {
            let m = &models[k];
            let n = m.positions.len() / 3;
            let ghost before = models@.take(k as int);
            let ghost upto = models@.take(k + 1);
            proof {
                lemma_take_step(models@, k as int);
                assert(n == m.vertex_count());
            }
            if m.normals.len() / 3 < n {
                proof {
                    lemma_fault_persists(models@, k + 1);
                }
                return Err(LoadError::MissingNormals { submesh: k });
            }
            if n > (u32::MAX - off) as usize {
                proof {
                    lemma_fault_persists(models@, k + 1);
                }
                return Err(LoadError::TooManyVertices { submesh: k });
            }
            if m.indices.len() > u32::MAX as usize - indices.len() {
                proof {
                    lemma_fault_persists(models@, k + 1);
                }
                return Err(LoadError::TooManyIndices { submesh: k });
            }
            let mut j: usize = 0;
            proof {
                assert(as_ints(indices@) =~= merged_indices(before) + m.shifted_indices(
                    off as nat,
                ).take(0));
            }
            while j < m.indices.len()
                invariant
                    j <= m.indices@.len(),
                    k < models.len(),
                    *m == models@[k as int],
                    n == m.vertex_count(),
                    off + n <= u32::MAX,
                    upto == models@.take(k + 1),
                    upto.len() == k + 1,
                    upto.last() == *m,
                    first_fault(upto.drop_last()) is None,
                    m.has_normals(),
                    total_vertices(upto) <= u32::MAX,
                    total_indices(upto) <= u32::MAX,
                    indices@.len() == total_indices(before) + j,
                    total_indices(before) + m.indices@.len() <= u32::MAX,
                    as_ints(indices@) == merged_indices(before) + m.shifted_indices(
                        off as nat,
                    ).take(j as int),
                    forall|i: int| 0 <= i < j ==> m.indices@[i] < n,
                    forall|i: int| 0 <= i < indices@.len() ==> indices@[i] < off + n,
                decreases m.indices@.len() - j,
            {
                let index = m.indices[j];
                if index as usize >= n {
                    proof {
                        assert(!m.indices_in_range());
                        assert(first_fault(upto) == Some(
                            LoadError::IndexOutOfRange { submesh: k },
                        ));
                        lemma_fault_persists(models@, k + 1);
                    }
                    return Err(LoadError::IndexOutOfRange { submesh: k });
                }
                let ghost held = indices@;
                indices.push(index + off);
                proof {
                    let shifted = m.shifted_indices(off as nat);
                    assert(shifted.take(j + 1) =~= shifted.take(j as int).push(index + off));
                    assert(as_ints(indices@) =~= as_ints(held).push(index + off));
                }
                j += 1;
            }
            let mut i: usize = 0;
            proof {
                assert(m.shifted_indices(off as nat).take(j as int) =~= m.shifted_indices(
                    off as nat,
                ));
                assert(vertices@ =~= merged_vertices(before) + m.vertices().take(0));
            }
            while i < n
                invariant
                    i <= n,
                    n == m.vertex_count(),
                    3 * n <= m.positions@.len() <= usize::MAX,
                    3 * n <= m.normals@.len(),
                    off + n <= u32::MAX,
                    vertices@.len() == off + i,
                    vertices@ == merged_vertices(before) + m.vertices().take(i as int),
                    first == (vertices@.len() == 0),
                    bounding_box == BoundingBox::of(positions_of(vertices@)),
                decreases n - i,
            {
                let position = Vector3 {
                    x: m.positions[3 * i],
                    y: m.positions[3 * i + 1],
                    z: m.positions[3 * i + 2],
                };
                let normal = Vector3 {
                    x: m.normals[3 * i],
                    y: m.normals[3 * i + 1],
                    z: m.normals[3 * i + 2],
                };
                let ghost held = vertices@;
                if first {
                    first = false;
                    bounding_box = BoundingBox::at(position);
                } else {
                    bounding_box = bounding_box.grown(position);
                }
                vertices.push(Vertex { position, normal });
                proof {
                    let all = m.vertices();
                    assert(all.take(i + 1) =~= all.take(i as int).push(all[i as int]));
                    assert(positions_of(vertices@) =~= positions_of(held).push(position));
                    lemma_box_push(positions_of(held), position);
                }
                i += 1;
            }
            proof {
                assert(m.vertices().take(n as int) =~= m.vertices());
            }
            off = off + n as u32;
            k += 1;
        }
        proof {
            assert(models@.take(k as int) =~= models@);
        }
        let n = indices.len() as u32;
        Ok(Mesh { vertices, indices, bounding_box, n })
    }
}

/// The words of a vertex list as the vertex buffer holds them: six to a
/// vertex, the vertices in order.
pub open spec fn vertex_words(vertices: Seq<Vertex>) -> Seq<u32> {
    Seq::new(6 * vertices.len(), |i: int| vertices[i / 6].words()[i % 6])
}

impl Mesh {
    /// The contents of the vertex buffer: the vertices in order, each as
    /// [`Vertex::layout`] lays it out.
    pub fn vertex_bytes(&self) -> (bytes: Vec<u8>)
        ensures
            is_memory_of(bytes@, vertex_words(self.vertices@)),
    {
        let mut words: Vec<u32> = Vec::new();
        let mut i: usize = 0;
        while i < self.vertices.len()
            invariant
                i <= self.vertices@.len(),
                words@ == vertex_words(self.vertices@.take(i as int)),
            decreases self.vertices@.len() - i,
        {
            let v = self.vertices[i];
            let ghost held = words@;
            words.push(v.position.x.bits);
            words.push(v.position.y.bits);
            words.push(v.position.z.bits);
            words.push(v.normal.x.bits);
            words.push(v.normal.y.bits);
            words.push(v.normal.z.bits);
            proof {
                assert(words@ =~= held + v.words());
                assert(held + v.words() =~= vertex_words(self.vertices@.take(i + 1)));
            }
            i += 1;
        }
        proof {
            assert(self.vertices@.take(i as int) =~= self.vertices@);
        }
        cast_words(&words)
    }

    /// The contents of the index buffer: the indices in order.
    pub fn index_bytes(&self) -> (bytes: Vec<u8>)
        ensures
            is_memory_of(bytes@, self.indices@),
    {
        cast_words(&self.indices)
    }
}

/// The bytes of the vertex buffer lie where the layout says: coordinate `k`
/// of the position of vertex `v` takes the four bytes from
/// `v * array_stride + position.offset + 4 * k` on, and coordinate `k` of its
/// normal the four bytes from `v * array_stride + normal.offset + 4 * k` on.
pub proof fn lemma_layout_matches_bytes(
    vertices: Seq<Vertex>,
    little_endian: bool,
    v: int,
    k: int,
)
    requires
        0 <= v < vertices.len(),
        0 <= k < 3,
    ensures
        ({
            let layout = Vertex::layout();
            let bytes = in_memory(vertex_words(vertices), little_endian);
            let position = v * layout.array_stride + layout.position.offset + 4 * k;
            let normal = v * layout.array_stride + layout.normal.offset + 4 * k;
            &&& bytes.len() == layout.array_stride * vertices.len()
            &&& bytes.subrange(position, position + 4) == in_memory(
                seq![vertices[v].position.axis(k).bits],
                little_endian,
            )
            &&& bytes.subrange(normal, normal + 4) == in_memory(
                seq![vertices[v].normal.axis(k).bits],
                little_endian,
            )
        }),
{
    let words = vertex_words(vertices);
    let bytes = in_memory(words, little_endian);
    let position = v * 24 + 4 * k;
    let normal = v * 24 + 12 + 4 * k;
    assert(words[6 * v + k] == vertices[v].position.axis(k).bits) by {
        assert((6 * v + k) / 6 == v && (6 * v + k) % 6 == k);
    }
    assert(words[6 * v + 3 + k] == vertices[v].normal.axis(k).bits) by {
        assert((6 * v + 3 + k) / 6 == v && (6 * v + 3 + k) % 6 == 3 + k);
    }
    assert forall|j: int| 0 <= j < 4 implies bytes.subrange(position, position + 4)[j]
        == in_memory(seq![vertices[v].position.axis(k).bits], little_endian)[j] by {
        assert((position + j) / 4 == 6 * v + k && (position + j) % 4 == j);
    }
    assert forall|j: int| 0 <= j < 4 implies bytes.subrange(normal, normal + 4)[j] == in_memory(
        seq![vertices[v].normal.axis(k).bits],
        little_endian,
    )[j] by {
        assert((normal + j) / 4 == 6 * v + 3 + k && (normal + j) % 4 == j);
    }
    assert(bytes.subrange(position, position + 4) =~= in_memory(
        seq![vertices[v].position.axis(k).bits],
        little_endian,
    ));
    assert(bytes.subrange(normal, normal + 4) =~= in_memory(
        seq![vertices[v].normal.axis(k).bits],
        little_endian,
    ));
}

/// A sequence of indices as mathematical integers.
pub open spec fn as_ints(indices: Seq<u32>) -> Seq<int> {
    Seq::new(indices.len(), |j: int| indices[j] as int)
}

proof fn lemma_take_step(models: Seq<SubMesh>, k: int)
    requires
        0 <= k < models.len(),
    ensures
        models.take(k + 1).drop_last() == models.take(k),
        models.take(k + 1).last() == models[k],
        models.take(k + 1).len() == k + 1,
{
    assert(models.take(k + 1).drop_last() =~= models.take(k));
}

proof fn lemma_fault_persists(models: Seq<SubMesh>, k: int)
    requires
        0 <= k <= models.len(),
        first_fault(models.take(k)) is Some,
    ensures
        first_fault(models) == first_fault(models.take(k)),
    decreases models.len() - k,
{
    if k < models.len() {
        lemma_take_step(models, k);
        lemma_fault_persists(models, k + 1);
    } else {
        assert(models.take(k) =~= models);
    }
}

} // verus!
