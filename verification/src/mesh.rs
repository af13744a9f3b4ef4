//! Triangle meshes and their assembly from the primitives of a glTF
//! document: every primitive's vertices are appended to one vertex list and
//! its indices, shifted past the vertices already there, to one index list.
use vstd::prelude::*;
use crate::gaussian::{F32_ONE, F32_ZERO};

verus! {

/// Normal given to a vertex whose primitive has no normal for it: `+y`.
pub const DEFAULT_NORMAL: [u32; 3] = [F32_ZERO, F32_ONE, F32_ZERO];

/// Texture coordinate given to a vertex whose primitive has none for it.
pub const DEFAULT_UV: [u32; 2] = [F32_ZERO, F32_ZERO];

/// One mesh vertex; every component is the bit pattern of an `f32`.
#[derive(Clone, Copy, Debug, PartialEq, Eq)]
pub struct Vertex {
    pub position: [u32; 3],
    pub normal: [u32; 3],
    pub uv: [u32; 2],
}

/// A triangle mesh: a vertex list and an index list, three indices per
/// triangle.
#[derive(Clone, Debug)]
pub struct Mesh {
    pub vertices: Vec<Vertex>,
    pub indices: Vec<u32>,
}

/// The contents of a mesh.
pub struct MeshModel {
    pub vertices: Seq<Vertex>,
    pub indices: Seq<u32>,
}

impl View for Mesh {
    type V = MeshModel;

    open spec fn view(&self) -> MeshModel {
        MeshModel { vertices: self.vertices@, indices: self.indices@ }
    }
}

impl Default for Mesh {
    /// The empty mesh.
    fn default() -> (m: Mesh)
        ensures
            m@.vertices.len() == 0,
            m@.indices.len() == 0,
    {
        Mesh { vertices: Vec::new(), indices: Vec::new() }
    }
}

/// The attribute data that one glTF primitive provides; an attribute that the
/// primitive lacks is `None`.
#[derive(Clone, Debug)]
pub struct Primitive {
    pub positions: Option<Vec<[u32; 3]>>,
    pub normals: Option<Vec<[u32; 3]>>,
    pub uvs: Option<Vec<[u32; 2]>>,
    pub indices: Option<Vec<u32>>,
}

/// The contents of a primitive.
pub struct PrimitiveModel {
    pub positions: Option<Seq<[u32; 3]>>,
    pub normals: Option<Seq<[u32; 3]>>,
    pub uvs: Option<Seq<[u32; 2]>>,
    pub indices: Option<Seq<u32>>,
}

pub open spec fn option_vec_view<T>(o: Option<Vec<T>>) -> Option<Seq<T>> {
    match o {
        Some(v) => Some(v@),
        None => None,
    }
}

impl View for Primitive {
    type V = PrimitiveModel;

    open spec fn view(&self) -> PrimitiveModel {
        PrimitiveModel {
            positions: option_vec_view(self.positions),
            normals: option_vec_view(self.normals),
            uvs: option_vec_view(self.uvs),
            indices: option_vec_view(self.indices),
        }
    }
}

/// Why a list of primitives gives no mesh.
#[derive(Clone, Copy, Debug, PartialEq, Eq)]
pub enum MeshError {
    /// A primitive has no `POSITION` attribute.
    MissingPositions,
    /// A primitive has no index list.
    MissingIndices,
    /// The primitives hold no vertex at all.
    NoVertices,
    /// The primitives hold no index at all.
    NoIndices,
}

/// Element `i` of `attribute`, or `fallback` where the attribute is absent
/// or shorter than `i + 1`.
pub open spec fn attribute_or<T>(attribute: Option<Seq<T>>, i: int, fallback: T) -> T {
    match attribute {
        Some(values) => if i < values.len() {
            values[i]
        } else {
            fallback
        },
        None => fallback,
    }
}

/// The vertices of a primitive: one per position, with the normal and
/// texture coordinate of the same index, or the defaults.
pub open spec fn primitive_vertices(
    positions: Seq<[u32; 3]>,
    normals: Option<Seq<[u32; 3]>>,
    uvs: Option<Seq<[u32; 2]>>,
) -> Seq<Vertex> {
    Seq::new(
        positions.len(),
        |i: int|
            Vertex {
                position: positions[i],
                normal: attribute_or(normals, i, DEFAULT_NORMAL),
                uv: attribute_or(uvs, i, DEFAULT_UV),
            },
    )
}

/// Every index shifted by `base`.
pub open spec fn offset_indices(indices: Seq<u32>, base: u32) -> Seq<u32> {
    Seq::new(indices.len(), |j: int| (indices[j] + base) as u32)
}

/// The mesh `m` with primitive `p` appended, or the attribute that `p` lacks.
pub open spec fn append_primitive(m: MeshModel, p: PrimitiveModel) -> Result<MeshModel, MeshError> {
    match p.positions {
        None => Err(MeshError::MissingPositions),
        Some(positions) => match p.indices {
            None => Err(MeshError::MissingIndices),
            Some(indices) => Ok(
                MeshModel {
                    vertices: m.vertices + primitive_vertices(positions, p.normals, p.uvs),
                    indices: m.indices + offset_indices(indices, m.vertices.len() as u32),
                },
            ),
        },
    }
}

/// All primitives appended in order to the empty mesh; the first primitive
/// that lacks an attribute decides the error.
pub open spec fn merge_primitives(ps: Seq<PrimitiveModel>) -> Result<MeshModel, MeshError>
    decreases ps.len(),
{
    if ps.len() == 0 {
        Ok(MeshModel { vertices: Seq::empty(), indices: Seq::empty() })
    } else {
        match merge_primitives(ps.drop_last()) {
            Err(e) => Err(e),
            Ok(m) => append_primitive(m, ps.last()),
        }
    }
}

/// Appending `p` to `m` keeps every vertex number and every shifted index
/// within `u32`.
pub open spec fn append_fits(m: MeshModel, p: PrimitiveModel) -> bool {
    p.positions is Some ==> p.indices is Some ==> {
        &&& m.vertices.len() <= u32::MAX
        &&& forall|j: int|
            0 <= j < p.indices->0.len() ==> #[trigger] p.indices->0[j] + m.vertices.len()
                <= u32::MAX
    }
}

/// Every append that merging performs fits (see `append_fits`).
pub open spec fn primitives_fit(ps: Seq<PrimitiveModel>) -> bool
    decreases ps.len(),
{
    if ps.len() == 0 {
        true
    } else {
        &&& primitives_fit(ps.drop_last())
        &&& merge_primitives(ps.drop_last()) matches Ok(m) ==> append_fits(m, ps.last())
    }
}

/// The mesh of a list of primitives, or why there is none.
pub open spec fn mesh_of_primitives(ps: Seq<PrimitiveModel>) -> Result<MeshModel, MeshError> {
    match merge_primitives(ps) {
        Err(e) => Err(e),
        Ok(m) => if m.vertices.len() == 0 {
            Err(MeshError::NoVertices)
        } else if m.indices.len() == 0 {
            Err(MeshError::NoIndices)
        } else {
            Ok(m)
        },
    }
}

pub open spec fn primitive_models(ps: Seq<Primitive>) -> Seq<PrimitiveModel> {
    ps.map_values(|p: Primitive| p@)
}

pub open spec fn mesh_result_model(r: Result<Mesh, MeshError>) -> Result<MeshModel, MeshError> {
    match r {
        Ok(m) => Ok(m@),
        Err(e) => Err(e),
    }
}

proof fn lemma_fit_prefix(ps: Seq<PrimitiveModel>, k: int)
    requires
        primitives_fit(ps),
        0 <= k <= ps.len(),
    ensures
        primitives_fit(ps.take(k)),
    decreases ps.len(),
{
    if k < ps.len() {
        assert(ps.drop_last().take(k) =~= ps.take(k));
        lemma_fit_prefix(ps.drop_last(), k);
    } else {
        assert(ps.take(k) =~= ps);
    }
}

proof fn lemma_merge_err_persists(ps: Seq<PrimitiveModel>, k: int)
    requires
        0 <= k <= ps.len(),
        merge_primitives(ps.take(k)) is Err,
    ensures
        merge_primitives(ps) == merge_primitives(ps.take(k)),
    decreases ps.len(),
{
    if k < ps.len() {
        assert(ps.drop_last().take(k) =~= ps.take(k));
        lemma_merge_err_persists(ps.drop_last(), k);
    } else {
        assert(ps.take(k) =~= ps);
    }
}

proof fn lemma_fit_after_err(ps: Seq<PrimitiveModel>, k: int)
    requires
        0 <= k <= ps.len(),
        merge_primitives(ps.take(k)) is Err,
        primitives_fit(ps.take(k)),
    ensures
        primitives_fit(ps),
    decreases ps.len(),
{
    if k < ps.len() {
        assert(ps.drop_last().take(k) =~= ps.take(k));
        lemma_fit_after_err(ps.drop_last(), k);
        lemma_merge_err_persists(ps.drop_last(), k);
    } else {
        assert(ps.take(k) =~= ps);
    }
}

/// Appends the vertices and shifted indices of one primitive.
fn append_to_mesh(
    mesh: &mut Mesh,
    positions: &Vec<[u32; 3]>,
    normals: &Option<Vec<[u32; 3]>>,
    uvs: &Option<Vec<[u32; 2]>>,
    indices: &Vec<u32>,
)
    requires
        old(mesh).vertices@.len() <= u32::MAX,
        forall|j: int|
            0 <= j < indices@.len() ==> #[trigger] indices@[j] + old(mesh).vertices@.len()
                <= u32::MAX,
    ensures
        final(mesh).vertices@ == old(mesh).vertices@ + primitive_vertices(
            positions@,
            option_vec_view(*normals),
            option_vec_view(*uvs),
        ),
        final(mesh).indices@ == old(mesh).indices@ + offset_indices(
            indices@,
            old(mesh).vertices@.len() as u32,
        ),
{
    let ghost old_vertices = mesh.vertices@;
    let ghost old_indices = mesh.indices@;
    let ghost added = primitive_vertices(positions@, option_vec_view(*normals), option_vec_view(*uvs));
    let base = mesh.vertices.len() as u32;
    let mut i: usize = 0;
    while i < positions.len()
        invariant
            i <= positions@.len(),
            mesh.indices@ == old_indices,
            added == primitive_vertices(positions@, option_vec_view(*normals), option_vec_view(*uvs)),
            mesh.vertices@ == old_vertices + added.take(i as int),
        decreases positions@.len() - i,
    {
        let normal = match normals {
            Some(ns) => if i < ns.len() {
                ns[i]
            } else {
                DEFAULT_NORMAL
            },
            None => DEFAULT_NORMAL,
        };
        let uv = match uvs {
            Some(ts) => if i < ts.len() {
                ts[i]
            } else {
                DEFAULT_UV
            },
            None => DEFAULT_UV,
        };
        mesh.vertices.push(Vertex { position: positions[i], normal, uv });
        assert(mesh.vertices@ =~= old_vertices + added.take(i + 1));
        i = i + 1;
    }
    assert(added.take(i as int) =~= added);
    let ghost shifted = offset_indices(indices@, base);
    let mut j: usize = 0;
    while j < indices.len()
        invariant
            j <= indices@.len(),
            mesh.vertices@ == old_vertices + added,
            base == old_vertices.len() as u32,
            base == old_vertices.len(),
            forall|k: int|
                0 <= k < indices@.len() ==> #[trigger] indices@[k] + old_vertices.len()
                    <= u32::MAX,
            shifted == offset_indices(indices@, base),
            mesh.indices@ == old_indices + shifted.take(j as int),
        decreases indices@.len() - j,
    {
        assert(indices@[j as int] + old_vertices.len() <= u32::MAX);
        mesh.indices.push(indices[j] + base);
        assert(mesh.indices@ =~= old_indices + shifted.take(j + 1));
        j = j + 1;
    }
    assert(shifted.take(j as int) =~= shifted);
}

/// Whether `mesh_from_primitives` may be called on `primitives`: every
/// append keeps vertex numbers and shifted indices within `u32`.
pub fn primitives_fit_u32(primitives: &[Primitive]) -> (fits: bool)
    ensures
        fits == primitives_fit(primitive_models(primitives@)),
{
    let ghost ps = primitive_models(primitives@);
    let mut base: u64 = 0;
    let mut i: usize = 0;
    while i < primitives.len()
        invariant
            i <= primitives@.len(),
            ps == primitive_models(primitives@),
            primitives_fit(ps.take(i as int)),
            merge_primitives(ps.take(i as int)) is Ok,
            merge_primitives(ps.take(i as int)) matches Ok(m) ==> (base == m.vertices.len() || (
            base == u64::MAX && m.vertices.len() >= u64::MAX)),
        decreases primitives@.len() - i,
    {
        assert(ps.take(i + 1).drop_last() =~= ps.take(i as int));
        assert(ps.take(i + 1).last() == primitives@[i as int]@);
        assert(ps.take(i + 1).last() == ps[i as int]);
        let p = &primitives[i];
        match (&p.positions, &p.indices) {
            (Some(positions), Some(indices)) => {
                assert(ps[i as int].indices == Some(indices@));
                if base > 0xffff_ffff {
                    proof {
                        if primitives_fit(ps) {
                            lemma_fit_prefix(ps, i + 1);
                        }
                    }
                    return false;
                }
                let mut j: usize = 0;
                while j < indices.len()
                    invariant
                        j <= indices@.len(),
                        i < primitives@.len(),
                        ps == primitive_models(primitives@),
                        ps[i as int].indices == Some(indices@),
                        ps[i as int].positions is Some,
                        ps.take(i + 1).drop_last() == ps.take(i as int),
                        ps.take(i + 1).last() == ps[i as int],
                        merge_primitives(ps.take(i as int)) matches Ok(m) ==> base
                            == m.vertices.len(),
                        merge_primitives(ps.take(i as int)) is Ok,
                        base <= 0xffff_ffff,
                        forall|k: int| 0 <= k < j ==> #[trigger] indices@[k] + base <= u32::MAX,
                    decreases indices@.len() - j,
                {
                    if indices[j] as u64 + base > 0xffff_ffff {
                        proof {
                            if primitives_fit(ps) {
                                lemma_fit_prefix(ps, i + 1);
                                assert(ps[i as int].indices->0[j as int] == indices@[j as int]);
                            }
                        }
                        return false;
                    }
                    j = j + 1;
                }
                base = base.saturating_add(positions.len() as u64);
            },
            _ => {
                proof {
                    lemma_fit_after_err(ps, i + 1);
                }
                return true;
            },
        }
        i = i + 1;
    }
    assert(ps.take(i as int) =~= ps);
    true
}

/// The mesh of `primitives`: their vertices and shifted indices appended in
/// order, or the first missing attribute, or the lack of any vertex or
/// index.
pub fn mesh_from_primitives(primitives: &[Primitive]) -> (result: Result<Mesh, MeshError>)
    requires
        primitives_fit(primitive_models(primitives@)),
    ensures
        mesh_result_model(result) == mesh_of_primitives(primitive_models(primitives@)),
{
    let ghost ps = primitive_models(primitives@);
    let mut mesh = Mesh { vertices: Vec::new(), indices: Vec::new() };
    let mut i: usize = 0;
    while i < primitives.len()
        invariant
            i <= primitives@.len(),
            ps == primitive_models(primitives@),
            primitives_fit(ps),
            merge_primitives(ps.take(i as int)) == Ok::<MeshModel, MeshError>(mesh@),
        decreases primitives@.len() - i,
    {
        assert(ps.take(i + 1).drop_last() =~= ps.take(i as int));
        assert(ps.take(i + 1).last() == primitives@[i as int]@);
        proof {
            lemma_fit_prefix(ps, i + 1);
        }
        let p = &primitives[i];
        match &p.positions {
            None => {
                proof {
                    lemma_merge_err_persists(ps, i + 1);
                }
                return Err(MeshError::MissingPositions);
            },
            Some(positions) => match &p.indices {
                None => {
                    proof {
                        lemma_merge_err_persists(ps, i + 1);
                    }
                    return Err(MeshError::MissingIndices);
                },
                Some(indices) => {
                    assert(ps[i as int].positions == Some(positions@));
                    assert(ps[i as int].indices == Some(indices@));
                    assert forall|j: int| 0 <= j < indices@.len() implies #[trigger] indices@[j]
                        + mesh.vertices@.len() <= u32::MAX by {
                        assert(ps[i as int].indices->0[j] == indices@[j]);
                    }
                    append_to_mesh(&mut mesh, positions, &p.normals, &p.uvs, indices);
                    assert(mesh@.vertices =~= mesh.vertices@);
                },
            },
        }
        i = i + 1;
    }
    assert(ps.take(i as int) =~= ps);
    if mesh.vertices.len() == 0 {
        return Err(MeshError::NoVertices);
    }
    if mesh.indices.len() == 0 {
        return Err(MeshError::NoIndices);
    }
    Ok(mesh)
}

/// Every index of `p` names one of its own positions.
pub open spec fn indices_in_range(p: PrimitiveModel) -> bool {
    p.positions is Some ==> p.indices is Some ==> forall|j: int|
        0 <= j < p.indices->0.len() ==> #[trigger] p.indices->0[j] < p.positions->0.len()
}

/// Merging keeps index references valid: when every primitive's indices
/// name its own vertices, every index of the merged mesh names one of its
/// vertices, and the merged mesh holds every primitive's vertices.
pub proof fn law_merge_keeps_indices_in_range(ps: Seq<PrimitiveModel>)
    requires
        primitives_fit(ps),
        forall|k: int| 0 <= k < ps.len() ==> indices_in_range(#[trigger] ps[k]),
    ensures
        merge_primitives(ps) matches Ok(m) ==> forall|j: int|
            0 <= j < m.indices.len() ==> #[trigger] m.indices[j] < m.vertices.len(),
    decreases ps.len(),
{
    if ps.len() > 0 {
        let rest = ps.drop_last();
        assert forall|k: int| 0 <= k < rest.len() implies indices_in_range(#[trigger] rest[k]) by {
            assert(rest[k] == ps[k]);
        }
        law_merge_keeps_indices_in_range(rest);
        if let Ok(m0) = merge_primitives(rest) {
            let p = ps.last();
            assert(indices_in_range(ps[ps.len() - 1]));
            if let Ok(m) = append_primitive(m0, p) {
                let positions = p.positions->0;
                let indices = p.indices->0;
                let base = m0.vertices.len();
                assert(base <= u32::MAX);
                assert((base as u32) as nat == base);
                assert forall|j: int| 0 <= j < m.indices.len() implies #[trigger] m.indices[j]
                    < m.vertices.len() by {
                    if j >= m0.indices.len() {
                        let q = j - m0.indices.len();
                        assert(indices[q] + base <= u32::MAX);
                        assert(indices[q] < positions.len());
                        assert(m.indices[j] == (indices[q] + (base as u32)) as u32);
                    }
                }
            }
        }
    }
}

/// Number of positions that `p` provides (none when it lacks the attribute).
pub open spec fn positions_len(p: PrimitiveModel) -> nat {
    match p.positions {
        Some(positions) => positions.len(),
        None => 0,
    }
}

/// Number of indices that `p` provides (none when it lacks the attribute).
pub open spec fn indices_len(p: PrimitiveModel) -> nat {
    match p.indices {
        Some(indices) => indices.len(),
        None => 0,
    }
}

/// The number of positions in the primitives before the `k`-th.
pub open spec fn vertex_offset(ps: Seq<PrimitiveModel>, k: int) -> nat
    decreases k,
{
    if k <= 0 {
        0
    } else {
        vertex_offset(ps, k - 1) + positions_len(ps[k - 1])
    }
}

/// The number of indices in the primitives before the `k`-th.
pub open spec fn index_offset(ps: Seq<PrimitiveModel>, k: int) -> nat
    decreases k,
{
    if k <= 0 {
        0
    } else {
        index_offset(ps, k - 1) + indices_len(ps[k - 1])
    }
}

proof fn lemma_offsets_drop_last(ps: Seq<PrimitiveModel>, k: int)
    requires
        0 <= k < ps.len(),
    ensures
        vertex_offset(ps.drop_last(), k) == vertex_offset(ps, k),
        index_offset(ps.drop_last(), k) == index_offset(ps, k),
    decreases k,
{
    if k > 0 {
        lemma_offsets_drop_last(ps, k - 1);
        assert(ps.drop_last()[k - 1] == ps[k - 1]);
    }
}

proof fn lemma_merge_lengths(ps: Seq<PrimitiveModel>)
    requires
        merge_primitives(ps) is Ok,
    ensures
        merge_primitives(ps)->Ok_0.vertices.len() == vertex_offset(ps, ps.len() as int),
        merge_primitives(ps)->Ok_0.indices.len() == index_offset(ps, ps.len() as int),
    decreases ps.len(),
{
    if ps.len() > 0 {
        lemma_merge_lengths(ps.drop_last());
        lemma_offsets_drop_last(ps, ps.len() - 1);
    }
}

/// Where merging puts each vertex: the `i`-th position of primitive `k`
/// becomes vertex `vertex_offset(ps, k) + i` of the merged mesh, carrying
/// that position, the primitive's own normal and texture coordinate of the
/// same index where it provides one (whatever else it provides), and else
/// the `+y` normal and the zero texture coordinate. The merged mesh has
/// exactly the primitives' vertices.
pub proof fn law_merge_places_every_vertex(ps: Seq<PrimitiveModel>, k: int, i: int)
    requires
        merge_primitives(ps) is Ok,
        0 <= k < ps.len(),
        0 <= i < positions_len(ps[k]),
    ensures
        ({
            let m = merge_primitives(ps)->Ok_0;
            let v = m.vertices[vertex_offset(ps, k) + i];
            &&& m.vertices.len() == vertex_offset(ps, ps.len() as int)
            &&& vertex_offset(ps, k) + i < m.vertices.len()
            &&& v.position == ps[k].positions->0[i]
            &&& v.normal == (match ps[k].normals {
                Some(normals) => if i < normals.len() {
                    normals[i]
                } else {
                    DEFAULT_NORMAL
                },
                None => DEFAULT_NORMAL,
            })
            &&& v.uv == (match ps[k].uvs {
                Some(uvs) => if i < uvs.len() {
                    uvs[i]
                } else {
                    DEFAULT_UV
                },
                None => DEFAULT_UV,
            })
        }),
    decreases ps.len(),
{
    let rest = ps.drop_last();
    lemma_merge_lengths(ps);
    lemma_merge_lengths(rest);
    lemma_offsets_drop_last(ps, ps.len() - 1);
    let m0 = merge_primitives(rest)->Ok_0;
    if k < ps.len() - 1 {
        assert(rest[k] == ps[k]);
        law_merge_places_every_vertex(rest, k, i);
        lemma_offsets_drop_last(ps, k);
        lemma_vertex_offset_monotone(ps, k + 1, ps.len() - 1);
    }
}

proof fn lemma_vertex_offset_monotone(ps: Seq<PrimitiveModel>, a: int, b: int)
    requires
        0 <= a <= b <= ps.len(),
    ensures
        vertex_offset(ps, a) <= vertex_offset(ps, b),
        index_offset(ps, a) <= index_offset(ps, b),
    decreases b - a,
{
    if a < b {
        lemma_vertex_offset_monotone(ps, a, b - 1);
    }
}

/// Where merging puts each index: the `j`-th index of primitive `k` becomes
/// index `index_offset(ps, k) + j` of the merged mesh, shifted by the number
/// of vertices before the primitive. The merged mesh has exactly the
/// primitives' indices.
pub proof fn law_merge_shifts_every_index(ps: Seq<PrimitiveModel>, k: int, j: int)
    requires
        primitives_fit(ps),
        merge_primitives(ps) is Ok,
        0 <= k < ps.len(),
        0 <= j < indices_len(ps[k]),
    ensures
        ({
            let m = merge_primitives(ps)->Ok_0;
            &&& m.indices.len() == index_offset(ps, ps.len() as int)
            &&& index_offset(ps, k) + j < m.indices.len()
            &&& m.indices[index_offset(ps, k) + j] == ps[k].indices->0[j] + vertex_offset(ps, k)
        }),
    decreases ps.len(),
{
    let rest = ps.drop_last();
    lemma_merge_lengths(ps);
    lemma_merge_lengths(rest);
    lemma_offsets_drop_last(ps, ps.len() - 1);
    let m0 = merge_primitives(rest)->Ok_0;
    if k < ps.len() - 1 {
        assert(rest[k] == ps[k]);
        law_merge_shifts_every_index(rest, k, j);
        lemma_offsets_drop_last(ps, k);
        lemma_vertex_offset_monotone(ps, k + 1, ps.len() - 1);
    } else {
        let p = ps.last();
        assert(append_fits(m0, p));
        let idx = p.indices->0;
        assert(idx[j] + m0.vertices.len() <= u32::MAX);
        assert((m0.vertices.len() as u32) as nat == m0.vertices.len());
    }
}

/// Whether every primitive before the `k`-th provides positions and indices.
pub open spec fn complete_before(ps: Seq<PrimitiveModel>, k: int) -> bool {
    forall|q: int| 0 <= q < k ==> (#[trigger] ps[q]).positions is Some && ps[q].indices is Some
}

/// When a list of primitives gives a mesh and when it gives each error: a
/// mesh exactly when every primitive provides positions and indices and
/// there is at least one vertex and one index; otherwise the first
/// primitive that lacks positions or indices decides the error (positions
/// checked first), and a complete list with no vertex, or with vertices but
/// no index, gives `NoVertices` or `NoIndices`.
pub proof fn law_mesh_errors(ps: Seq<PrimitiveModel>)
    ensures
        match mesh_of_primitives(ps) {
            Ok(m) => complete_before(ps, ps.len() as int) && m.vertices.len() > 0
                && m.indices.len() > 0,
            Err(MeshError::MissingPositions) => exists|k: int|
                0 <= k < ps.len() && complete_before(ps, k) && (#[trigger] ps[k]).positions is None,
            Err(MeshError::MissingIndices) => exists|k: int|
                0 <= k < ps.len() && complete_before(ps, k) && (#[trigger] ps[k]).positions is Some
                    && ps[k].indices is None,
            Err(MeshError::NoVertices) => complete_before(ps, ps.len() as int) && vertex_offset(
                ps,
                ps.len() as int,
            ) == 0,
            Err(MeshError::NoIndices) => complete_before(ps, ps.len() as int) && vertex_offset(
                ps,
                ps.len() as int,
            ) > 0 && index_offset(ps, ps.len() as int) == 0,
        },
{
    lemma_merge_outcome(ps);
    if merge_primitives(ps) is Ok {
        lemma_merge_lengths(ps);
    }
}

proof fn lemma_merge_outcome(ps: Seq<PrimitiveModel>)
    ensures
        merge_primitives(ps) is Ok <==> complete_before(ps, ps.len() as int),
        merge_primitives(ps) == Err::<MeshModel, MeshError>(MeshError::MissingPositions)
            ==> exists|k: int|
            0 <= k < ps.len() && complete_before(ps, k) && (#[trigger] ps[k]).positions is None,
        merge_primitives(ps) == Err::<MeshModel, MeshError>(MeshError::MissingIndices)
            ==> exists|k: int|
            0 <= k < ps.len() && complete_before(ps, k) && (#[trigger] ps[k]).positions is Some
                && ps[k].indices is None,
        merge_primitives(ps) is Err ==> merge_primitives(ps) == Err::<MeshModel, MeshError>(
            MeshError::MissingPositions,
        ) || merge_primitives(ps) == Err::<MeshModel, MeshError>(MeshError::MissingIndices),
    decreases ps.len(),
{
    if ps.len() > 0 {
        let rest = ps.drop_last();
        lemma_merge_outcome(rest);
        let n = ps.len() - 1;
        assert forall|k: int| 0 <= k <= n implies complete_before(rest, k) == complete_before(ps, k) by {
            assert forall|q: int| 0 <= q < k implies rest[q] == ps[q] by {}
        }
        if merge_primitives(rest) is Ok {
            assert(complete_before(ps, n));
        } else {
            if merge_primitives(rest) == Err::<MeshModel, MeshError>(MeshError::MissingPositions) {
                let k = choose|k: int|
                    0 <= k < rest.len() && complete_before(rest, k) && (#[trigger] rest[k]).positions is None;
                assert(ps[k] == rest[k]);
                assert(!complete_before(ps, ps.len() as int));
            } else {
                let k = choose|k: int|
                    0 <= k < rest.len() && complete_before(rest, k) && (#[trigger] rest[k]).positions is Some
                        && rest[k].indices is None;
                assert(ps[k] == rest[k]);
                assert(!complete_before(ps, ps.len() as int));
            }
        }
    }
}

} // verus!
