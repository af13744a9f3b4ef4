//! Planning of the GPU conversion pass: every triangle of the index list
//! becomes three Gaussians, one per corner; the compute shader runs in
//! workgroups of `WORKGROUP_SIZE` invocations, one invocation per triangle.
use vstd::prelude::*;
use crate::bytes::{law_le_decoding_value, le_value, u32_from_le_bytes};
use crate::gaussian::Gaussian;

verus! {

/// Gaussians produced per triangle.
pub const GAUSSIANS_PER_TRIANGLE: usize = 3;

/// Byte size of one Gaussian in the GPU output buffer: 24 four-byte words,
/// laid out as position (words 0-2), padding, normal (4-6), padding, scale
/// (8-10), padding, rotation (12-15), colour (16-19), opacity (20) and three
/// words of padding.
pub const GPU_GAUSSIAN_SIZE: usize = 96;

/// Invocations per compute workgroup.
pub const WORKGROUP_SIZE: u32 = 64;

/// The uniform parameters of the compute shader; `density` and
/// `gaussian_scale` are `f32` bit patterns.
#[derive(Clone, Copy, Debug, PartialEq, Eq)]
pub struct ShaderParams {
    pub density: u32,
    pub gaussian_scale: u32,
    pub triangle_count: u32,
}

/// Sizes and counts of one conversion pass.
#[derive(Clone, Copy, Debug, PartialEq, Eq)]
pub struct ConversionPlan {
    pub triangle_count: usize,
    pub gaussian_count: usize,
    pub output_buffer_size: u64,
    pub workgroup_count: u32,
    pub params: ShaderParams,
}

/// The number of whole triangles in an index list of `index_count` entries.
pub open spec fn triangle_count(index_count: nat) -> nat {
    index_count / 3
}

/// The triangle count as the shader sees it (a `u32`).
pub open spec fn shader_triangle_count(index_count: nat) -> u32 {
    triangle_count(index_count) as u32
}

/// Planning `index_count` indices stays within the integer types involved:
/// the output buffer size within `usize` and the workgroup arithmetic
/// within `u32`.
pub open spec fn plan_fits(index_count: nat) -> bool {
    &&& triangle_count(index_count) * GAUSSIANS_PER_TRIANGLE * GPU_GAUSSIAN_SIZE <= usize::MAX
    &&& shader_triangle_count(index_count) + (WORKGROUP_SIZE - 1) <= u32::MAX
}

/// The plan for a mesh of `index_count` indices, with the user's `density`
/// and `scale` (`f32` bit patterns).
pub open spec fn spec_plan(index_count: nat, density: u32, scale: u32) -> ConversionPlan {
    let triangles = triangle_count(index_count);
    let gaussians = triangles * GAUSSIANS_PER_TRIANGLE;
    ConversionPlan {
        triangle_count: triangles as usize,
        gaussian_count: gaussians as usize,
        output_buffer_size: (gaussians * GPU_GAUSSIAN_SIZE) as u64,
        workgroup_count: ((shader_triangle_count(index_count) + (WORKGROUP_SIZE - 1))
            / WORKGROUP_SIZE as int) as u32,
        params: ShaderParams {
            density,
            gaussian_scale: scale,
            triangle_count: shader_triangle_count(index_count),
        },
    }
}

/// Whether `plan_conversion` may be called for `index_count` indices.
pub fn conversion_fits(index_count: usize) -> (fits: bool)
    ensures
        fits == plan_fits(index_count as nat),
{
    let triangles = index_count / 3;
    let shader_triangles = triangles as u32;
    triangles <= usize::MAX / (GAUSSIANS_PER_TRIANGLE * GPU_GAUSSIAN_SIZE)
        && shader_triangles <= u32::MAX - (WORKGROUP_SIZE - 1)
}

/// The plan for converting a mesh with `index_count` indices.
pub fn plan_conversion(index_count: usize, density: u32, scale: u32) -> (plan: ConversionPlan)
    requires
        plan_fits(index_count as nat),
    ensures
        plan == spec_plan(index_count as nat, density, scale),
{
    let triangle_count = index_count / 3;
    let gaussian_count = triangle_count * GAUSSIANS_PER_TRIANGLE;
    let output_buffer_size = (gaussian_count * GPU_GAUSSIAN_SIZE) as u64;
    let shader_triangles = triangle_count as u32;
    let workgroup_count = (shader_triangles + (WORKGROUP_SIZE - 1)) / WORKGROUP_SIZE;
    ConversionPlan {
        triangle_count,
        gaussian_count,
        output_buffer_size,
        workgroup_count,
        params: ShaderParams { density, gaussian_scale: scale, triangle_count: shader_triangles },
    }
}

/// Three Gaussians per whole triangle, and the output buffer holds exactly
/// them.
pub proof fn law_three_gaussians_per_triangle(index_count: nat, density: u32, scale: u32)
    requires
        plan_fits(index_count),
    ensures
        ({
            let plan = spec_plan(index_count, density, scale);
            &&& plan.triangle_count == index_count / 3
            &&& plan.gaussian_count == 3 * plan.triangle_count
            &&& plan.gaussian_count <= index_count
            &&& plan.output_buffer_size == plan.gaussian_count * GPU_GAUSSIAN_SIZE
        }),
{
}

/// The dispatch gives every triangle the shader sees an invocation, and
/// no workgroup lies wholly past the last triangle.
pub proof fn law_workgroups_cover_triangles(index_count: nat, density: u32, scale: u32)
    requires
        plan_fits(index_count),
    ensures
        ({
            let plan = spec_plan(index_count, density, scale);
            &&& plan.workgroup_count * WORKGROUP_SIZE >= plan.params.triangle_count
            &&& plan.workgroup_count * WORKGROUP_SIZE < plan.params.triangle_count
                + WORKGROUP_SIZE
        }),
{
    let t = shader_triangle_count(index_count) as int;
    let w = (t + 63) / 64;
    assert(w * 64 >= t && w * 64 < t + 64) by (nonlinear_arith)
        requires
            w == (t + 63) / 64,
            t >= 0,
    ;
}

/// The shader is told every whole triangle, and the dispatch gives each of
/// them an invocation: for a mesh of at most `u32::MAX` triangles the
/// shader's triangle count is `index_count / 3`, the plan's own triangle
/// count, and the workgroups hold at least that many invocations, fewer
/// than one workgroup more. (For more triangles the count is cut to its
/// low 32 bits when handed to the shader.)
pub proof fn law_shader_sees_every_triangle(index_count: nat, density: u32, scale: u32)
    requires
        plan_fits(index_count),
        index_count / 3 <= u32::MAX,
    ensures
        ({
            let plan = spec_plan(index_count, density, scale);
            &&& plan.params.triangle_count == index_count / 3
            &&& plan.params.triangle_count == plan.triangle_count
            &&& plan.workgroup_count * 64 >= index_count / 3
            &&& plan.workgroup_count * 64 < index_count / 3 + 64
            &&& plan.params.density == density
            &&& plan.params.gaussian_scale == scale
        }),
{
    let t = index_count / 3;
    assert(t as u32 == t);
    let w = (t + 63) / 64;
    assert(w * 64 >= t && w * 64 < t + 64) by (nonlinear_arith)
        requires
            w == (t + 63) / 64,
            t >= 0,
    ;
}

/// A read-back of the planned output buffer decodes (see
/// `decode_gpu_gaussians`) to exactly the planned Gaussians: its size is a
/// whole number of records, three per triangle.
pub proof fn law_readback_holds_planned_gaussians(index_count: nat, density: u32, scale: u32)
    requires
        plan_fits(index_count),
    ensures
        ({
            let plan = spec_plan(index_count, density, scale);
            &&& plan.output_buffer_size as nat % GPU_GAUSSIAN_SIZE as nat == 0
            &&& plan.output_buffer_size as nat / GPU_GAUSSIAN_SIZE as nat == plan.gaussian_count
            &&& plan.gaussian_count == GAUSSIANS_PER_TRIANGLE * plan.triangle_count
        }),
{
    let g = triangle_count(index_count) * 3;
    assert((g * 96) % 96 == 0 && (g * 96) / 96 == g) by (nonlinear_arith)
        requires
            g >= 0,
    ;
}

/// The word stored little-endian at byte `at` of `bytes`.
pub open spec fn word_at(bytes: Seq<u8>, at: int) -> u32 {
    u32_from_le_bytes(bytes.subrange(at, at + 4))
}

/// The Gaussian whose GPU record starts at byte `base` of `bytes` (see
/// `GPU_GAUSSIAN_SIZE` for the layout).
pub open spec fn gpu_gaussian_at(bytes: Seq<u8>, base: int) -> Gaussian {
    Gaussian {
        position: [word_at(bytes, base), word_at(bytes, base + 4), word_at(bytes, base + 8)],
        normal: [word_at(bytes, base + 16), word_at(bytes, base + 20), word_at(bytes, base + 24)],
        scale: [word_at(bytes, base + 32), word_at(bytes, base + 36), word_at(bytes, base + 40)],
        rotation: [
            word_at(bytes, base + 48),
            word_at(bytes, base + 52),
            word_at(bytes, base + 56),
            word_at(bytes, base + 60),
        ],
        color: [
            word_at(bytes, base + 64),
            word_at(bytes, base + 68),
            word_at(bytes, base + 72),
            word_at(bytes, base + 76),
        ],
        opacity: word_at(bytes, base + 80),
    }
}

/// Every word read from a record is the little-endian number its four bytes
/// spell.
pub proof fn law_word_at_is_little_endian(bytes: Seq<u8>, at: int)
    requires
        0 <= at,
        at + 4 <= bytes.len(),
    ensures
        word_at(bytes, at) == le_value(bytes, at),
{
    let b = bytes.subrange(at, at + 4);
    law_le_decoding_value(b);
    assert(b[0] == bytes[at] && b[1] == bytes[at + 1] && b[2] == bytes[at + 2] && b[3]
        == bytes[at + 3]);
}

/// What the decoded Gaussian of the record at `base` holds: position `j`
/// is the little-endian word at `base + 4j`, normal `j` at `base + 16 + 4j`,
/// scale `j` at `base + 32 + 4j`, rotation `j` at `base + 48 + 4j`, colour
/// `j` at `base + 64 + 4j` and opacity at `base + 80`.
pub proof fn law_gpu_record_fields(bytes: Seq<u8>, base: int)
    requires
        0 <= base,
        base + GPU_GAUSSIAN_SIZE <= bytes.len(),
    ensures
        ({
            let g = gpu_gaussian_at(bytes, base);
            &&& forall|j: int| 0 <= j < 3 ==> #[trigger] g.position[j] == le_value(bytes, base + 4 * j)
            &&& forall|j: int| 0 <= j < 3 ==> #[trigger] g.normal[j] == le_value(bytes, base + 16 + 4 * j)
            &&& forall|j: int| 0 <= j < 3 ==> #[trigger] g.scale[j] == le_value(bytes, base + 32 + 4 * j)
            &&& forall|j: int| 0 <= j < 4 ==> #[trigger] g.rotation[j] == le_value(bytes, base + 48 + 4 * j)
            &&& forall|j: int| 0 <= j < 4 ==> #[trigger] g.color[j] == le_value(bytes, base + 64 + 4 * j)
            &&& g.opacity == le_value(bytes, base + 80)
        }),
{
    assert forall|k: int| 0 <= k < 21 implies #[trigger] word_at(bytes, base + 4 * k) == le_value(
        bytes,
        base + 4 * k,
    ) by {
        law_word_at_is_little_endian(bytes, base + 4 * k);
    }
    let g = gpu_gaussian_at(bytes, base);
    assert forall|j: int| 0 <= j < 3 implies #[trigger] g.position[j] == le_value(bytes, base + 4 * j) by {
        assert(word_at(bytes, base + 4 * j) == le_value(bytes, base + 4 * j));
        if j == 0 {
            assert(g.position[j] == word_at(bytes, base + 4 * 0));
        } else if j == 1 {
            assert(g.position[j] == word_at(bytes, base + 4 * 1));
        } else {
            assert(g.position[j] == word_at(bytes, base + 4 * 2));
        }
    }
    assert forall|j: int| 0 <= j < 3 implies #[trigger] g.normal[j] == le_value(bytes, base + 16 + 4 * j) by {
        assert(word_at(bytes, base + 4 * (4 + j)) == le_value(bytes, base + 4 * (4 + j)));
        assert(base + 4 * (4 + j) == base + 16 + 4 * j);
    }
    assert forall|j: int| 0 <= j < 3 implies #[trigger] g.scale[j] == le_value(bytes, base + 32 + 4 * j) by {
        assert(word_at(bytes, base + 4 * (8 + j)) == le_value(bytes, base + 4 * (8 + j)));
        assert(base + 4 * (8 + j) == base + 32 + 4 * j);
    }
    assert forall|j: int| 0 <= j < 4 implies #[trigger] g.rotation[j] == le_value(bytes, base + 48 + 4 * j) by {
        assert(word_at(bytes, base + 4 * (12 + j)) == le_value(bytes, base + 4 * (12 + j)));
        assert(base + 4 * (12 + j) == base + 48 + 4 * j);
    }
    assert forall|j: int| 0 <= j < 4 implies #[trigger] g.color[j] == le_value(bytes, base + 64 + 4 * j) by {
        assert(word_at(bytes, base + 4 * (16 + j)) == le_value(bytes, base + 4 * (16 + j)));
        assert(base + 4 * (16 + j) == base + 64 + 4 * j);
    }
    assert(word_at(bytes, base + 4 * 20) == le_value(bytes, base + 4 * 20));
}

/// The little-endian word at byte `at` of `bytes`.
fn read_word(bytes: &[u8], at: usize) -> (w: u32)
    requires
        at + 4 <= bytes@.len(),
    ensures
        w == word_at(bytes@, at as int),
{
    let w = (bytes[at] as u32) | ((bytes[at + 1] as u32) << 8) | ((bytes[at + 2] as u32) << 16)
        | ((bytes[at + 3] as u32) << 24);
    assert(bytes@.subrange(at as int, at + 4)[0] == bytes@[at as int]);
    assert(bytes@.subrange(at as int, at + 4)[1] == bytes@[at + 1]);
    assert(bytes@.subrange(at as int, at + 4)[2] == bytes@[at + 2]);
    assert(bytes@.subrange(at as int, at + 4)[3] == bytes@[at + 3]);
    w
}

/// The Gaussians in a read-back GPU output buffer of little-endian words
/// (the byte order of every GPU target the converter runs on): one per
/// `GPU_GAUSSIAN_SIZE` bytes, in order.
pub fn decode_gpu_gaussians(bytes: &[u8]) -> (gaussians: Vec<Gaussian>)
    requires
        bytes@.len() % GPU_GAUSSIAN_SIZE as nat == 0,
    ensures
        gaussians@.len() == bytes@.len() / GPU_GAUSSIAN_SIZE as nat,
        forall|i: int|
            0 <= i < gaussians@.len() ==> #[trigger] gaussians@[i] == gpu_gaussian_at(
                bytes@,
                GPU_GAUSSIAN_SIZE * i,
            ),
{
    let count = bytes.len() / GPU_GAUSSIAN_SIZE;
    assert(bytes@.len() == bytes.len() as nat);
    let mut gaussians: Vec<Gaussian> = Vec::new();
    let mut i: usize = 0;
    while i < count
        invariant
            count == bytes@.len() / GPU_GAUSSIAN_SIZE as nat,
            bytes@.len() % GPU_GAUSSIAN_SIZE as nat == 0,
            bytes@.len() <= usize::MAX,
            i <= count,
            gaussians@.len() == i,
            forall|k: int|
                0 <= k < i ==> #[trigger] gaussians@[k] == gpu_gaussian_at(
                    bytes@,
                    GPU_GAUSSIAN_SIZE * k,
                ),
        decreases count - i,
    {
        assert(GPU_GAUSSIAN_SIZE * i + GPU_GAUSSIAN_SIZE <= bytes@.len()) by (nonlinear_arith)
            requires
                i < count,
                count == bytes@.len() / 96,
                bytes@.len() % 96 == 0,
        ;
        let base = GPU_GAUSSIAN_SIZE * i;
        let g = Gaussian {
            position: [read_word(bytes, base), read_word(bytes, base + 4), read_word(bytes, base + 8)],
            normal: [
                read_word(bytes, base + 16),
                read_word(bytes, base + 20),
                read_word(bytes, base + 24),
            ],
            scale: [
                read_word(bytes, base + 32),
                read_word(bytes, base + 36),
                read_word(bytes, base + 40),
            ],
            rotation: [
                read_word(bytes, base + 48),
                read_word(bytes, base + 52),
                read_word(bytes, base + 56),
                read_word(bytes, base + 60),
            ],
            color: [
                read_word(bytes, base + 64),
                read_word(bytes, base + 68),
                read_word(bytes, base + 72),
                read_word(bytes, base + 76),
            ],
            opacity: read_word(bytes, base + 80),
        };
        assert(g == gpu_gaussian_at(bytes@, base as int));
        gaussians.push(g);
        i = i + 1;
    }
    gaussians
}

} // verus!
