//! Choosing output formats and naming output files.
use vstd::prelude::*;
use vstd::string::{StringExecFns, StringSliceAdditionalSpecFns};

verus! {

/// The output formats.
#[derive(Clone, Copy, Debug, PartialEq, Eq)]
pub enum ExportFormat {
    /// Binary little-endian `.ply` with seventeen `float` properties.
    Ply,
    /// Packed `.splat` records.
    Splat,
}

/// The file extension of a format, without the dot.
pub open spec fn spec_extension(format: ExportFormat) -> Seq<char> {
    match format {
        ExportFormat::Ply => "ply"@,
        ExportFormat::Splat => "splat"@,
    }
}

/// Extension and format name each other: a file with a format's extension
/// asks for that format, and an extension asks for a format only if it is
/// that format's extension. The two extensions are `ply` and `splat`.
pub proof fn law_extension_names_format(ext: Seq<char>, format: ExportFormat)
    ensures
        spec_format_for_extension(spec_extension(format)) == Some(format),
        spec_format_for_extension(ext) == Some(format) <==> ext == spec_extension(format),
        spec_extension(ExportFormat::Ply) == "ply"@,
        spec_extension(ExportFormat::Splat) == "splat"@,
{
    reveal_strlit("ply");
    reveal_strlit("splat");
    assert("ply"@ != "splat"@) by {
        assert("ply"@.len() != "splat"@.len());
    }
}

/// The format that an output file with extension `ext` asks for, if any.
pub open spec fn spec_format_for_extension(ext: Seq<char>) -> Option<ExportFormat> {
    if ext == "ply"@ {
        Some(ExportFormat::Ply)
    } else if ext == "splat"@ {
        Some(ExportFormat::Splat)
    } else {
        None
    }
}

/// The file extension of a format, without the dot.
pub fn extension(format: ExportFormat) -> (ext: &'static str)
    ensures
        ext@ == spec_extension(format),
{
    match format {
        ExportFormat::Ply => "ply",
        ExportFormat::Splat => "splat",
    }
}

/// Whether two strings hold the same characters.
fn str_eq(a: &str, b: &str) -> (same: bool)
    ensures
        same == (a@ == b@),
{
    broadcast use vstd::utf8::encode_utf8_decode_utf8;

    let x = a.as_bytes();
    let y = b.as_bytes();
    if x.len() != y.len() {
        proof {
            if a@ == b@ {
                assert(a.spec_bytes() == b.spec_bytes());
            }
        }
        return false;
    }
    let mut i: usize = 0;
    while i < x.len()
        invariant
            i <= x@.len(),
            x@.len() == y@.len(),
            x@ == a.spec_bytes(),
            y@ == b.spec_bytes(),
            forall|k: int| 0 <= k < i ==> x@[k] == y@[k],
        decreases x@.len() - i,
    {
        if x[i] != y[i] {
            proof {
                if a@ == b@ {
                    assert(a.spec_bytes() == b.spec_bytes());
                }
            }
            return false;
        }
        i = i + 1;
    }
    assert(x@ =~= y@);
    assert(vstd::utf8::decode_utf8(a.spec_bytes()) == a@);
    assert(vstd::utf8::decode_utf8(b.spec_bytes()) == b@);
    true
}

/// The format that an output file with extension `ext` asks for: `ply` and
/// `splat` name formats, anything else none.
pub fn format_for_extension(ext: &str) -> (format: Option<ExportFormat>)
    ensures
        format == spec_format_for_extension(ext@),
{
    if str_eq(ext, "ply") {
        Some(ExportFormat::Ply)
    } else if str_eq(ext, "splat") {
        Some(ExportFormat::Splat)
    } else {
        None
    }
}

/// The formats that the export writes, in the order it writes them.
pub fn export_formats(export_ply: bool, export_splat: bool) -> (formats: Vec<ExportFormat>)
    ensures
        formats@ == (if export_ply {
            seq![ExportFormat::Ply]
        } else {
            Seq::empty()
        }) + (if export_splat {
            seq![ExportFormat::Splat]
        } else {
            Seq::empty()
        }),
{
    let mut formats: Vec<ExportFormat> = Vec::new();
    if export_ply {
        formats.push(ExportFormat::Ply);
    }
    if export_splat {
        formats.push(ExportFormat::Splat);
    }
    assert(formats@ =~= (if export_ply {
        seq![ExportFormat::Ply]
    } else {
        Seq::empty()
    }) + (if export_splat {
        seq![ExportFormat::Splat]
    } else {
        Seq::empty()
    }));
    formats
}

/// The stem used when the input file gives none.
pub open spec fn spec_default_stem() -> Seq<char> {
    "output"@
}

/// The file name for `format` next to an input whose file stem is `stem`:
/// `<stem>.<extension>`, with stem `output` when there is none.
pub fn export_file_name(stem: Option<&str>, format: ExportFormat) -> (name: String)
    ensures
        name@ == (match stem {
            Some(s) => s@,
            None => spec_default_stem(),
        }) + "."@ + spec_extension(format),
{
    let mut name = match stem {
        Some(s) => String::from_str(s),
        None => String::from_str("output"),
    };
    name.append(".");
    name.append(extension(format));
    name
}

/// The paths shown as `paths`, separated by `, `.
pub open spec fn joined_paths(paths: Seq<Seq<char>>) -> Seq<char>
    decreases paths.len(),
{
    if paths.len() == 0 {
        Seq::empty()
    } else if paths.len() == 1 {
        paths[0]
    } else {
        joined_paths(paths.drop_last()) + ", "@ + paths.last()
    }
}

/// The status line after an export that wrote the files shown as `paths`:
/// `Wrote ` and every path, in the order written; empty when nothing was
/// written.
pub open spec fn spec_export_message(paths: Seq<Seq<char>>) -> Seq<char> {
    if paths.len() == 0 {
        Seq::empty()
    } else {
        "Wrote "@ + joined_paths(paths)
    }
}

/// The status line after an export that wrote the files shown as `written`
/// (see `spec_export_message`).
pub fn export_message(written: &[String]) -> (message: String)
    ensures
        message@ == spec_export_message(written@.map_values(|p: String| p@)),
{
    let ghost paths = written@.map_values(|p: String| p@);
    if written.len() == 0 {
        return String::new();
    }
    let mut message = String::from_str("Wrote ");
    let mut i: usize = 0;
    while i < written.len()
        invariant
            i <= written@.len(),
            written@.len() > 0,
            paths == written@.map_values(|p: String| p@),
            message@ == "Wrote "@ + joined_paths(paths.take(i as int)),
        decreases written@.len() - i,
    {
        let ghost before = message@;
        if i > 0 {
            message.append(", ");
        }
        message.append(written[i].as_str());
        assert(paths.take(i + 1).drop_last() =~= paths.take(i as int));
        assert(paths[i as int] == written@[i as int]@);
        if i == 0 {
            assert(paths.take(0) =~= Seq::<Seq<char>>::empty());
            assert(message@ =~= "Wrote "@ + joined_paths(paths.take(i + 1)));
        } else {
            assert(message@ =~= "Wrote "@ + joined_paths(paths.take(i + 1)));
        }
        i = i + 1;
    }
    assert(paths.take(i as int) =~= paths);
    message
}

} // verus!
