//! The packed `.splat` encoding: no header, one 44-byte record per Gaussian
//! holding its position and scale (six little-endian `f32`), its colour and
//! opacity quantised to four bytes, and its rotation quaternion (four
//! little-endian `f32`).
use vstd::prelude::*;
use crate::bytes::{
    law_le_decoding_value, le_value, lemma_u32_le_roundtrip, lemma_words_le_bytes_index, lemma_words_le_bytes_len, push_words_le,
    u32_from_le_bytes, words_le_bytes,
};
use crate::gaussian::Gaussian;

verus! {

/// Number of bytes that one Gaussian occupies in a `.splat` file.
pub const SPLAT_RECORD_SIZE: usize = 44;

/// Offset of the colour bytes within a record.
pub const SPLAT_COLOR_OFFSET: usize = 24;

/// Offset of the rotation within a record.
pub const SPLAT_ROTATION_OFFSET: usize = 28;

/// Position then scale, the words that open a record.
pub open spec fn splat_lead_words(g: Gaussian) -> Seq<u32> {
    seq![g.position[0], g.position[1], g.position[2], g.scale[0], g.scale[1], g.scale[2]]
}

/// The rotation quaternion, the words that close a record.
pub open spec fn splat_rotation_words(g: Gaussian) -> Seq<u32> {
    seq![g.rotation[0], g.rotation[1], g.rotation[2], g.rotation[3]]
}

/// The record of a Gaussian whose colour and opacity quantise to `rgba`.
pub open spec fn splat_record(g: Gaussian, rgba: [u8; 4]) -> Seq<u8> {
    words_le_bytes(splat_lead_words(g)) + rgba@ + words_le_bytes(splat_rotation_words(g))
}

/// The records of all Gaussians, in order, with their quantised colours.
pub open spec fn splat_file(gs: Seq<Gaussian>, rgba: Seq<[u8; 4]>) -> Seq<u8>
    decreases gs.len(),
{
    if gs.len() == 0 {
        Seq::empty()
    } else {
        splat_file(gs.drop_last(), rgba.drop_last()) + splat_record(gs.last(), rgba.last())
    }
}

/// Size in bytes of the `.splat` file that holds `gaussian_count`
/// Gaussians: `SPLAT_RECORD_SIZE` bytes each.
#[verifier::allow_in_spec]
pub fn splat_file_size(gaussian_count: usize) -> usize
    requires
        gaussian_count * SPLAT_RECORD_SIZE <= usize::MAX,
    returns
        (gaussian_count * SPLAT_RECORD_SIZE) as usize,
{
    gaussian_count * SPLAT_RECORD_SIZE
}

/// Appends the record of one Gaussian.
fn push_splat_record(out: &mut Vec<u8>, g: &Gaussian, rgba: [u8; 4])
    ensures
        final(out)@ == old(out)@ + splat_record(*g, rgba),
{
    let ghost start = out@;
    let lead: [u32; 6] = [
        g.position[0], g.position[1], g.position[2], g.scale[0], g.scale[1], g.scale[2],
    ];
    assert(lead@ =~= splat_lead_words(*g));
    push_words_le(out, &lead);
    out.push(rgba[0]);
    out.push(rgba[1]);
    out.push(rgba[2]);
    out.push(rgba[3]);
    let rotation: [u32; 4] = [g.rotation[0], g.rotation[1], g.rotation[2], g.rotation[3]];
    assert(rotation@ =~= splat_rotation_words(*g));
    push_words_le(out, &rotation);
    assert(out@ =~= start + splat_record(*g, rgba));
}

/// The `.splat` file that holds `gaussians`, where `rgba[i]` is the colour
/// and opacity of `gaussians[i]` quantised to bytes.
pub fn encode_splat(gaussians: &[Gaussian], rgba: &[[u8; 4]]) -> (bytes: Vec<u8>)
    requires
        rgba@.len() == gaussians@.len(),
    ensures
        bytes@ == splat_file(gaussians@, rgba@),
        bytes@.len() == gaussians@.len() * SPLAT_RECORD_SIZE,
        bytes@.len() == splat_file_size(gaussians@.len() as usize),
{
    let mut out: Vec<u8> = Vec::new();
    let mut i: usize = 0;
    while i < gaussians.len()
        invariant
            i <= gaussians@.len(),
            rgba@.len() == gaussians@.len(),
            out@ == splat_file(gaussians@.take(i as int), rgba@.take(i as int)),
        decreases gaussians@.len() - i,
    {
        push_splat_record(&mut out, &gaussians[i], rgba[i]);
        assert(gaussians@.take(i + 1).drop_last() =~= gaussians@.take(i as int));
        assert(rgba@.take(i + 1).drop_last() =~= rgba@.take(i as int));
        i = i + 1;
    }
    assert(gaussians@.take(i as int) =~= gaussians@);
    assert(rgba@.take(i as int) =~= rgba@);
    proof {
        law_splat_file_len(gaussians@, rgba@);
        assert(out@.len() == out.len() as nat);
        assert(gaussians@.len() == gaussians.len() as nat);
    }
    out
}

/// Every record is `SPLAT_RECORD_SIZE` bytes long.
pub proof fn lemma_splat_record_len(g: Gaussian, rgba: [u8; 4])
    ensures
        splat_record(g, rgba).len() == SPLAT_RECORD_SIZE,
{
    broadcast use vstd::array::array_len_matches_n;

    lemma_words_le_bytes_len(splat_lead_words(g));
    lemma_words_le_bytes_len(splat_rotation_words(g));
    assert(rgba@.len() == 4);
}

/// A `.splat` file holds `SPLAT_RECORD_SIZE` bytes per Gaussian.
pub proof fn law_splat_file_len(gs: Seq<Gaussian>, rgba: Seq<[u8; 4]>)
    requires
        rgba.len() == gs.len(),
    ensures
        splat_file(gs, rgba).len() == SPLAT_RECORD_SIZE * gs.len(),
    decreases gs.len(),
{
    if gs.len() > 0 {
        law_splat_file_len(gs.drop_last(), rgba.drop_last());
        lemma_splat_record_len(gs.last(), rgba.last());
    }
}

/// `splat_file_size` gives the size of the file that `encode_splat`
/// writes: for every list of Gaussians whose file size fits in `usize`, the
/// file is `splat_file_size` of its length bytes long.
pub proof fn law_splat_file_size_is_file_size(gs: Seq<Gaussian>, rgba: Seq<[u8; 4]>)
    requires
        rgba.len() == gs.len(),
        gs.len() * SPLAT_RECORD_SIZE <= usize::MAX,
    ensures
        splat_file(gs, rgba).len() == gs.len() * SPLAT_RECORD_SIZE,
        splat_file(gs, rgba).len() == splat_file_size(gs.len() as usize),
{
    law_splat_file_len(gs, rgba);
}

/// The `i`-th record of the file is the record of the `i`-th Gaussian.
pub proof fn lemma_splat_file_record(gs: Seq<Gaussian>, rgba: Seq<[u8; 4]>, i: int)
    requires
        rgba.len() == gs.len(),
        0 <= i < gs.len(),
    ensures
        splat_file(gs, rgba).subrange(
            SPLAT_RECORD_SIZE * i,
            SPLAT_RECORD_SIZE * i + SPLAT_RECORD_SIZE,
        ) == splat_record(gs[i], rgba[i]),
    decreases gs.len(),
{
    law_splat_file_len(gs.drop_last(), rgba.drop_last());
    lemma_splat_record_len(gs.last(), rgba.last());
    if i == gs.len() - 1 {
        assert(splat_file(gs, rgba).subrange(
            SPLAT_RECORD_SIZE * i,
            SPLAT_RECORD_SIZE * i + SPLAT_RECORD_SIZE,
        ) =~= splat_record(gs[i], rgba[i]));
    } else {
        lemma_splat_file_record(gs.drop_last(), rgba.drop_last(), i);
        assert(splat_file(gs, rgba).subrange(
            SPLAT_RECORD_SIZE * i,
            SPLAT_RECORD_SIZE * i + SPLAT_RECORD_SIZE,
        ) =~= splat_file(gs.drop_last(), rgba.drop_last()).subrange(
            SPLAT_RECORD_SIZE * i,
            SPLAT_RECORD_SIZE * i + SPLAT_RECORD_SIZE,
        ));
    }
}

/// Every value written can be read back from record `i`, which starts at
/// `SPLAT_RECORD_SIZE * i`: the six words of position and scale at offsets
/// `4 * k`, the four colour bytes at `SPLAT_COLOR_OFFSET`, and the four
/// rotation words at `SPLAT_ROTATION_OFFSET + 4 * k`.
pub proof fn law_splat_reads_back(gs: Seq<Gaussian>, rgba: Seq<[u8; 4]>, i: int)
    requires
        rgba.len() == gs.len(),
        0 <= i < gs.len(),
    ensures
        forall|k: int|
            0 <= k < 6 ==> #[trigger] u32_from_le_bytes(
                splat_file(gs, rgba).subrange(
                    SPLAT_RECORD_SIZE * i + 4 * k,
                    SPLAT_RECORD_SIZE * i + 4 * k + 4,
                ),
            ) == splat_lead_words(gs[i])[k],
        splat_file(gs, rgba).subrange(
            SPLAT_RECORD_SIZE * i + SPLAT_COLOR_OFFSET,
            SPLAT_RECORD_SIZE * i + SPLAT_COLOR_OFFSET + 4,
        ) == rgba[i]@,
        forall|k: int|
            0 <= k < 4 ==> #[trigger] u32_from_le_bytes(
                splat_file(gs, rgba).subrange(
                    SPLAT_RECORD_SIZE * i + SPLAT_ROTATION_OFFSET + 4 * k,
                    SPLAT_RECORD_SIZE * i + SPLAT_ROTATION_OFFSET + 4 * k + 4,
                ),
            ) == splat_rotation_words(gs[i])[k],
{
    broadcast use vstd::array::array_len_matches_n;

    let r = SPLAT_RECORD_SIZE * i;
    let file = splat_file(gs, rgba);
    let rec = splat_record(gs[i], rgba[i]);
    let lead = splat_lead_words(gs[i]);
    let rot = splat_rotation_words(gs[i]);
    law_splat_file_len(gs, rgba);
    lemma_splat_file_record(gs, rgba, i);
    lemma_words_le_bytes_len(lead);
    lemma_words_le_bytes_len(rot);
    assert forall|k: int| 0 <= k < 6 implies #[trigger] u32_from_le_bytes(
        file.subrange(r + 4 * k, r + 4 * k + 4),
    ) == lead[k] by {
        lemma_words_le_bytes_index(lead, k);
        lemma_u32_le_roundtrip(lead[k]);
        assert(file.subrange(r + 4 * k, r + 4 * k + 4) =~= rec.subrange(4 * k, 4 * k + 4));
        assert(rec.subrange(4 * k, 4 * k + 4) =~= words_le_bytes(lead).subrange(4 * k, 4 * k + 4));
    }
    assert(rgba[i]@.len() == 4);
    assert(rec.subrange(24, 28) =~= rgba[i]@);
    assert(file.subrange(r + 24, r + 28) =~= rec.subrange(24, 28));
    assert forall|k: int| 0 <= k < 4 implies #[trigger] u32_from_le_bytes(
        file.subrange(r + 28 + 4 * k, r + 28 + 4 * k + 4),
    ) == rot[k] by {
        lemma_words_le_bytes_index(rot, k);
        lemma_u32_le_roundtrip(rot[k]);
        assert(file.subrange(r + 28 + 4 * k, r + 28 + 4 * k + 4) =~= rec.subrange(
            28 + 4 * k,
            28 + 4 * k + 4,
        ));
        assert(rec.subrange(28 + 4 * k, 28 + 4 * k + 4) =~= words_le_bytes(rot).subrange(
            4 * k,
            4 * k + 4,
        ));
    }
}

proof fn lemma_splat_value(gs: Seq<Gaussian>, rgba: Seq<[u8; 4]>, at: int)
    requires
        rgba.len() == gs.len(),
        0 <= at,
        at + 4 <= splat_file(gs, rgba).len(),
    ensures
        le_value(splat_file(gs, rgba), at) == u32_from_le_bytes(
            splat_file(gs, rgba).subrange(at, at + 4),
        ),
{
    let f = splat_file(gs, rgba);
    let b = f.subrange(at, at + 4);
    law_le_decoding_value(b);
    assert(b[0] == f[at] && b[1] == f[at + 1] && b[2] == f[at + 2] && b[3] == f[at + 3]);
}

/// What each record of a `.splat` file holds: in the record of Gaussian `i`,
/// which starts at byte `SPLAT_RECORD_SIZE * i`, the little-endian words are
/// position `x y z` at bytes 0-11 and scale at 12-23, then the four colour
/// bytes `rgba[i]` at 24-27, then the rotation quaternion at 28-43.
pub proof fn law_splat_record_fields(gs: Seq<Gaussian>, rgba: Seq<[u8; 4]>, i: int)
    requires
        rgba.len() == gs.len(),
        0 <= i < gs.len(),
    ensures
        ({
            let f = splat_file(gs, rgba);
            let r = SPLAT_RECORD_SIZE * i;
            let g = gs[i];
            &&& forall|j: int| 0 <= j < 3 ==> #[trigger] g.position[j] == le_value(f, r + 4 * j)
            &&& forall|j: int| 0 <= j < 3 ==> #[trigger] g.scale[j] == le_value(f, r + 12 + 4 * j)
            &&& forall|c: int| 0 <= c < 4 ==> #[trigger] f[r + 24 + c] == rgba[i][c]
            &&& forall|j: int| 0 <= j < 4 ==> #[trigger] g.rotation[j] == le_value(f, r + 28 + 4 * j)
        }),
{
    let f = splat_file(gs, rgba);
    let r = SPLAT_RECORD_SIZE * i;
    let g = gs[i];
    law_splat_reads_back(gs, rgba, i);
    law_splat_file_len(gs, rgba);
    assert(r + SPLAT_RECORD_SIZE <= f.len()) by (nonlinear_arith)
        requires
            r == 44 * i,
            f.len() == 44 * gs.len(),
            i < gs.len(),
    ;
    let lead = splat_lead_words(g);
    let rot = splat_rotation_words(g);
    assert forall|k: int| 0 <= k < 6 implies #[trigger] le_value(f, r + 4 * k) == lead[k] by {
        lemma_splat_value(gs, rgba, r + 4 * k);
        assert(u32_from_le_bytes(f.subrange(r + 4 * k, r + 4 * k + 4)) == lead[k]);
    }
    assert forall|k: int| 0 <= k < 4 implies #[trigger] le_value(f, r + 28 + 4 * k) == rot[k] by {
        lemma_splat_value(gs, rgba, r + 28 + 4 * k);
        assert(u32_from_le_bytes(f.subrange(r + 28 + 4 * k, r + 28 + 4 * k + 4)) == rot[k]);
    }
    assert forall|j: int| 0 <= j < 3 implies #[trigger] g.position[j] == le_value(f, r + 4 * j) by {
        assert(le_value(f, r + 4 * j) == lead[j]);
    }
    assert forall|j: int| 0 <= j < 3 implies #[trigger] g.scale[j] == le_value(f, r + 12 + 4 * j) by {
        assert(le_value(f, r + 4 * (3 + j)) == lead[3 + j]);
        assert(r + 4 * (3 + j) == r + 12 + 4 * j);
    }
    assert forall|c: int| 0 <= c < 4 implies #[trigger] f[r + 24 + c] == rgba[i][c] by {
        assert(f.subrange(r + 24, r + 28)[c] == f[r + 24 + c]);
    }
    assert forall|j: int| 0 <= j < 4 implies #[trigger] g.rotation[j] == le_value(f, r + 28 + 4 * j) by {
        assert(le_value(f, r + 28 + 4 * j) == rot[j]);
    }
}

} // verus!
