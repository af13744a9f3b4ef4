//! The binary `.ply` encoding of a list of Gaussians: an ASCII header that
//! names the element count and the seventeen `float` properties, followed
//! by one little-endian record per Gaussian.
use vstd::prelude::*;
use vstd::string::StringSliceAdditionalSpecFns;
use crate::bytes::{
    decimal_digits, decimal_value, law_le_decoding_value, le_value, lemma_decimal_roundtrip,
    lemma_u32_le_roundtrip, lemma_words_le_bytes_index, lemma_words_le_bytes_len, push_decimal, push_str_bytes, push_words_le, u32_from_le_bytes, words_le_bytes,
};
use crate::gaussian::Gaussian;

verus! {

/// Header text up to the element count.
pub const PLY_HEADER_START: &'static str = "ply\nformat binary_little_endian 1.0\nelement vertex ";

/// Header text after the element count: the property list and the end marker.
pub const PLY_HEADER_END: &'static str = "\nproperty float x\nproperty float y\nproperty float z\nproperty float nx\nproperty float ny\nproperty float nz\nproperty float f_dc_0\nproperty float f_dc_1\nproperty float f_dc_2\nproperty float opacity\nproperty float scale_0\nproperty float scale_1\nproperty float scale_2\nproperty float rot_0\nproperty float rot_1\nproperty float rot_2\nproperty float rot_3\nend_header\n";

/// Number of `float` properties per record.
pub const PLY_RECORD_WORDS: usize = 17;

/// Number of bytes per record.
pub const PLY_RECORD_SIZE: usize = 68;

/// The header of a file that holds `count` Gaussians.
pub open spec fn ply_header(count: nat) -> Seq<u8> {
    PLY_HEADER_START.spec_bytes() + decimal_digits(count) + PLY_HEADER_END.spec_bytes()
}

/// The property values of one record, in header order: position, normal,
/// the first three colour channels, opacity, scale, rotation.
pub open spec fn ply_record_words(g: Gaussian) -> Seq<u32> {
    seq![
        g.position[0], g.position[1], g.position[2],
        g.normal[0], g.normal[1], g.normal[2],
        g.color[0], g.color[1], g.color[2],
        g.opacity,
        g.scale[0], g.scale[1], g.scale[2],
        g.rotation[0], g.rotation[1], g.rotation[2], g.rotation[3],
    ]
}

/// The bytes of one record.
pub open spec fn ply_record(g: Gaussian) -> Seq<u8> {
    words_le_bytes(ply_record_words(g))
}

/// The records of all Gaussians, in order.
pub open spec fn ply_body(gs: Seq<Gaussian>) -> Seq<u8>
    decreases gs.len(),
{
    if gs.len() == 0 {
        Seq::empty()
    } else {
        ply_body(gs.drop_last()) + ply_record(gs.last())
    }
}

/// The whole file.
pub open spec fn ply_file(gs: Seq<Gaussian>) -> Seq<u8> {
    ply_header(gs.len()) + ply_body(gs)
}

/// Appends the record of one Gaussian.
fn push_ply_record(out: &mut Vec<u8>, g: &Gaussian)
    ensures
        final(out)@ == old(out)@ + ply_record(*g),
{
    let words: [u32; 17] = [
        g.position[0], g.position[1], g.position[2],
        g.normal[0], g.normal[1], g.normal[2],
        g.color[0], g.color[1], g.color[2],
        g.opacity,
        g.scale[0], g.scale[1], g.scale[2],
        g.rotation[0], g.rotation[1], g.rotation[2], g.rotation[3],
    ];
    assert(words@ =~= ply_record_words(*g));
    push_words_le(out, &words);
}

/// The `.ply` file that holds `gaussians`.
pub fn encode_ply(gaussians: &[Gaussian]) -> (bytes: Vec<u8>)
    ensures
        bytes@ == ply_file(gaussians@),
{
    let mut out: Vec<u8> = Vec::new();
    push_str_bytes(&mut out, PLY_HEADER_START);
    push_decimal(&mut out, gaussians.len());
    push_str_bytes(&mut out, PLY_HEADER_END);
    let ghost header = out@;
    assert(header =~= ply_header(gaussians@.len()));
    let mut i: usize = 0;
    while i < gaussians.len()
        invariant
            i <= gaussians@.len(),
            header == ply_header(gaussians@.len()),
            out@ == header + ply_body(gaussians@.take(i as int)),
        decreases gaussians@.len() - i,
    {
        push_ply_record(&mut out, &gaussians[i]);
        assert(gaussians@.take(i + 1).drop_last() =~= gaussians@.take(i as int));
        assert(out@ =~= header + ply_body(gaussians@.take(i + 1)));
        i = i + 1;
    }
    assert(gaussians@.take(i as int) =~= gaussians@);
    out
}

/// Every record is `PLY_RECORD_SIZE` bytes long.
pub proof fn lemma_ply_record_len(g: Gaussian)
    ensures
        ply_record(g).len() == PLY_RECORD_SIZE,
{
    lemma_words_le_bytes_len(ply_record_words(g));
}

/// The body holds `PLY_RECORD_SIZE` bytes per Gaussian.
pub proof fn lemma_ply_body_len(gs: Seq<Gaussian>)
    ensures
        ply_body(gs).len() == PLY_RECORD_SIZE * gs.len(),
    decreases gs.len(),
{
    if gs.len() > 0 {
        lemma_ply_body_len(gs.drop_last());
        lemma_ply_record_len(gs.last());
    }
}

/// The `i`-th record of the body is the record of the `i`-th Gaussian.
pub proof fn lemma_ply_body_record(gs: Seq<Gaussian>, i: int)
    requires
        0 <= i < gs.len(),
    ensures
        ply_body(gs).subrange(PLY_RECORD_SIZE * i, PLY_RECORD_SIZE * i + PLY_RECORD_SIZE)
            == ply_record(gs[i]),
    decreases gs.len(),
{
    lemma_ply_body_len(gs.drop_last());
    lemma_ply_record_len(gs.last());
    if i == gs.len() - 1 {
        assert(ply_body(gs).subrange(PLY_RECORD_SIZE * i, PLY_RECORD_SIZE * i + PLY_RECORD_SIZE)
            =~= ply_record(gs[i]));
    } else {
        lemma_ply_body_record(gs.drop_last(), i);
        assert(ply_body(gs).subrange(PLY_RECORD_SIZE * i, PLY_RECORD_SIZE * i + PLY_RECORD_SIZE)
            =~= ply_body(gs.drop_last()).subrange(
            PLY_RECORD_SIZE * i,
            PLY_RECORD_SIZE * i + PLY_RECORD_SIZE,
        ));
    }
}

/// A `.ply` file is its header followed by `PLY_RECORD_SIZE` bytes per
/// Gaussian.
pub proof fn law_ply_file_len(gs: Seq<Gaussian>)
    ensures
        ply_file(gs).len() == ply_header(gs.len()).len() + PLY_RECORD_SIZE * gs.len(),
{
    lemma_ply_body_len(gs);
}

/// Every value written can be read back: the four bytes of property `k` of
/// Gaussian `i`, which start `PLY_RECORD_SIZE * i + 4 * k` bytes after the
/// header, decode as a little-endian word to that property's value.
pub proof fn law_ply_reads_back(gs: Seq<Gaussian>, i: int, k: int)
    requires
        0 <= i < gs.len(),
        0 <= k < PLY_RECORD_WORDS,
    ensures
        ({
            let at = ply_header(gs.len()).len() + PLY_RECORD_SIZE * i + 4 * k;
            u32_from_le_bytes(ply_file(gs).subrange(at, at + 4)) == ply_record_words(gs[i])[k]
        }),
{
    let h = ply_header(gs.len()).len();
    let r = PLY_RECORD_SIZE * i;
    lemma_ply_body_len(gs);
    lemma_ply_body_record(gs, i);
    lemma_words_le_bytes_index(ply_record_words(gs[i]), k);
    lemma_u32_le_roundtrip(ply_record_words(gs[i])[k]);
    assert(ply_file(gs).subrange(h + r + 4 * k, h + r + 4 * k + 4) =~= ply_record(gs[i]).subrange(
        4 * k,
        4 * k + 4,
    ));
}

/// The element count in the header reads back as the number of Gaussians:
/// the digits that follow `PLY_HEADER_START` denote `gs.len()`, and the
/// rest of the header follows them.
pub proof fn law_ply_header_count_reads_back(gs: Seq<Gaussian>)
    ensures
        ({
            let start: int = PLY_HEADER_START.spec_bytes().len() as int;
            let digits = decimal_digits(gs.len());
            let d: int = digits.len() as int;
            &&& ply_file(gs).subrange(0, start) == PLY_HEADER_START.spec_bytes()
            &&& ply_file(gs).subrange(start, start + d) == digits
            &&& decimal_value(digits) == gs.len()
            &&& ply_file(gs).subrange(
                start + d,
                start + d + PLY_HEADER_END.spec_bytes().len(),
            ) == PLY_HEADER_END.spec_bytes()
        }),
{
    let start: int = PLY_HEADER_START.spec_bytes().len() as int;
    let digits = decimal_digits(gs.len());
    let d: int = digits.len() as int;
    let end = PLY_HEADER_END.spec_bytes();
    lemma_decimal_roundtrip(gs.len());
    assert(ply_file(gs).subrange(0, start) =~= PLY_HEADER_START.spec_bytes());
    assert(ply_file(gs).subrange(start, start + d) =~= digits);
    assert(ply_file(gs).subrange(start + d, start + d + end.len()) =~= end);
}

/// The little-endian number at byte `at` of a `.ply` file is the value of
/// property `k` of Gaussian `i`, read as in `law_ply_reads_back`.
proof fn lemma_ply_value(gs: Seq<Gaussian>, i: int, k: int)
    requires
        0 <= i < gs.len(),
        0 <= k < PLY_RECORD_WORDS,
    ensures
        le_value(ply_file(gs), ply_header(gs.len()).len() + PLY_RECORD_SIZE * i + 4 * k)
            == ply_record_words(gs[i])[k],
{
    let at = ply_header(gs.len()).len() + PLY_RECORD_SIZE * i + 4 * k;
    law_ply_reads_back(gs, i, k);
    law_ply_file_len(gs);
    let b = ply_file(gs).subrange(at, at + 4);
    law_le_decoding_value(b);
    assert(b[0] == ply_file(gs)[at] && b[1] == ply_file(gs)[at + 1] && b[2] == ply_file(gs)[at
        + 2] && b[3] == ply_file(gs)[at + 3]);
}

/// What each record of a `.ply` file holds, in the header's property order:
/// in the record of Gaussian `i`, which starts `PLY_RECORD_SIZE * i` bytes
/// after the header, the little-endian words are position `x y z` at bytes
/// 0-11, normal `nx ny nz` at 12-23, colour `f_dc_0..2` at 24-35, opacity at
/// 36, scale `scale_0..2` at 40-51 and rotation `rot_0..3` at 52-67.
pub proof fn law_ply_record_fields(gs: Seq<Gaussian>, i: int)
    requires
        0 <= i < gs.len(),
    ensures
        ({
            let f = ply_file(gs);
            let r = ply_header(gs.len()).len() + PLY_RECORD_SIZE * i;
            let g = gs[i];
            &&& forall|j: int| 0 <= j < 3 ==> #[trigger] g.position[j] == le_value(f, r + 4 * j)
            &&& forall|j: int| 0 <= j < 3 ==> #[trigger] g.normal[j] == le_value(f, r + 12 + 4 * j)
            &&& forall|j: int| 0 <= j < 3 ==> #[trigger] g.color[j] == le_value(f, r + 24 + 4 * j)
            &&& g.opacity == le_value(f, r + 36)
            &&& forall|j: int| 0 <= j < 3 ==> #[trigger] g.scale[j] == le_value(f, r + 40 + 4 * j)
            &&& forall|j: int| 0 <= j < 4 ==> #[trigger] g.rotation[j] == le_value(f, r + 52 + 4 * j)
        }),
{
    let f = ply_file(gs);
    let r = ply_header(gs.len()).len() + PLY_RECORD_SIZE * i;
    let g = gs[i];
    let w = ply_record_words(g);
    assert forall|k: int| 0 <= k < 17 implies #[trigger] le_value(f, r + 4 * k) == w[k] by {
        lemma_ply_value(gs, i, k);
    }
    assert forall|j: int| 0 <= j < 3 implies #[trigger] g.position[j] == le_value(f, r + 4 * j) by {
        assert(le_value(f, r + 4 * j) == w[j]);
    }
    assert forall|j: int| 0 <= j < 3 implies #[trigger] g.normal[j] == le_value(f, r + 12 + 4 * j) by {
        assert(le_value(f, r + 4 * (3 + j)) == w[3 + j]);
        assert(r + 4 * (3 + j) == r + 12 + 4 * j);
    }
    assert forall|j: int| 0 <= j < 3 implies #[trigger] g.color[j] == le_value(f, r + 24 + 4 * j) by {
        assert(le_value(f, r + 4 * (6 + j)) == w[6 + j]);
        assert(r + 4 * (6 + j) == r + 24 + 4 * j);
    }
    assert(le_value(f, r + 4 * 9) == w[9]);
    assert forall|j: int| 0 <= j < 3 implies #[trigger] g.scale[j] == le_value(f, r + 40 + 4 * j) by {
        assert(le_value(f, r + 4 * (10 + j)) == w[10 + j]);
        assert(r + 4 * (10 + j) == r + 40 + 4 * j);
    }
    assert forall|j: int| 0 <= j < 4 implies #[trigger] g.rotation[j] == le_value(f, r + 52 + 4 * j) by {
        assert(le_value(f, r + 4 * (13 + j)) == w[13 + j]);
        assert(r + 4 * (13 + j) == r + 52 + 4 * j);
    }
}

} // verus!
