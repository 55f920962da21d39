//! What a loaded codec extension reports about itself.
use vstd::prelude::*;
use crate::error::AroundError;
use crate::text::{same_text, spec_name_text, text_of_utf8};

verus! {

/// A loaded codec, as listed to clients.
#[derive(Debug, Clone, PartialEq, Eq)]
pub struct DecoderInfo {
    pub name: String,
    pub formats: Vec<String>,
    pub source: String,
    pub path: Option<String>,
}

/// The codec's name as its extension reports it: the text of the bytes when
/// they are UTF-8, `unknown` otherwise.
pub fn codec_name_from_bytes(bytes: &[u8]) -> (r: String)
    ensures
        vstd::utf8::valid_utf8(bytes@) ==> r@ == vstd::utf8::decode_utf8(bytes@),
        !vstd::utf8::valid_utf8(bytes@) ==> r@ == "unknown"@,
{
    match text_of_utf8(bytes) {
        Some(t) => t.to_owned(),
        None => String::from_str("unknown"),
    }
}

/// The pieces of `s` between NUL characters, empty ones left out.
pub open spec fn spec_nul_fields(s: Seq<char>) -> Seq<Seq<char>>
    decreases s.len(),
{
    spec_fields_from(s, 0, 0)
}

/// Fields of `s` from position `i`, the current one starting at `start`.
pub open spec fn spec_fields_from(s: Seq<char>, start: int, i: int) -> Seq<Seq<char>>
    decreases s.len() - i,
{
    if i < 0 || i >= s.len() || start < 0 || start > i {
        if 0 <= start < s.len() {
            seq![s.subrange(start, s.len() as int)]
        } else {
            Seq::empty()
        }
    } else if s[i] == '\0' {
        let rest = spec_fields_from(s, i + 1, i + 1);
        if start < i {
            seq![s.subrange(start, i)] + rest
        } else {
            rest
        }
    } else {
        spec_fields_from(s, start, i + 1)
    }
}

/// The formats an extension lists: NUL-separated names, empty ones left out;
/// nothing when the list is not UTF-8.
pub fn formats_from_bytes(bytes: &[u8]) -> (r: Vec<String>)
    ensures
        r@.len() == spec_nul_fields(spec_name_text(bytes@)).len(),
        forall|k: int| 0 <= k < r@.len() ==> (#[trigger] r@[k])@ == spec_nul_fields(spec_name_text(bytes@))[k],
{
    let text = match text_of_utf8(bytes) {
        Some(t) => t,
        None => "",
    };
    proof {
        if !vstd::utf8::valid_utf8(bytes@) {
            assert(text@ =~= Seq::<char>::empty()) by {
                reveal_strlit("");
            }
        }
    }
    let n = text.unicode_len();
    let mut out: Vec<String> = Vec::new();
    let mut start: usize = 0;
    let mut i: usize = 0;
    let ghost s = text@;
    while i < n
        invariant
            s == text@,
            n == s.len(),
            start <= i <= n,
            forall|k: int| start <= k < i ==> s[k] != '\0',
            ({
                let fields = out@.map_values(|x: String| x@) + spec_fields_from(s, start as int, i as int);
                fields == spec_nul_fields(s)
            }),
        decreases n - i,
    {
        let c = text.get_char(i);
        if c == '\0' {
            if start < i {
                let field = text.substring_char(start, i);
                let ghost before = out@.map_values(|x: String| x@);
                out.push(field.to_owned());
                proof {
                    assert(out@.map_values(|x: String| x@) =~= before.push(s.subrange(start as int, i as int)));
                    assert(before.push(s.subrange(start as int, i as int)) + spec_fields_from(s, i + 1, i + 1)
                        =~= before + (seq![s.subrange(start as int, i as int)] + spec_fields_from(s, i + 1, i + 1)));
                }
            }
            start = i + 1;
            i = i + 1;
        } else {
            i = i + 1;
        }
    }
    if start < n {
        let field = text.substring_char(start, n);
        let ghost before = out@.map_values(|x: String| x@);
        out.push(field.to_owned());
        proof {
            assert(out@.map_values(|x: String| x@) =~= before.push(s.subrange(start as int, n as int)));
            assert(before + seq![s.subrange(start as int, n as int)] =~= before.push(s.subrange(start as int, n as int)));
        }
    } else {
        proof {
            assert(out@.map_values(|x: String| x@) + Seq::<Seq<char>>::empty() =~= out@.map_values(|x: String| x@));
        }
    }
    proof {
        let m = out@.map_values(|x: String| x@);
        assert(m == spec_nul_fields(s));
        assert forall|k: int| 0 <= k < out@.len() implies (#[trigger] out@[k])@ == spec_nul_fields(s)[k] by {
            assert(m[k] == out@[k]@);
        }
    }
    out
}

/// A shared library file is recognised by its extension.
pub fn is_library_extension(ext: &str) -> (r: bool)
    ensures
        r == (ext@ == "so"@ || ext@ == "dylib"@ || ext@ == "dll"@),
{
    same_text(ext, "so") || same_text(ext, "dylib") || same_text(ext, "dll")
}

/// Refuses to load a codec whose name is already taken.
pub fn check_not_loaded(loaded: &[String], name: &str, path: &str) -> (r: Result<(), AroundError>)
    ensures
        r is Ok <==> forall|k: int| 0 <= k < loaded@.len() ==> (#[trigger] loaded@[k])@ != name@,
        r matches Err(e) ==> (e matches AroundError::CodecLoadFailed { path: Some(p), reason } && p@
            == path@ && reason@ == "codec '"@ + name@ + "' already loaded"@),
{
    let mut i: usize = 0;
    while i < loaded.len()
        invariant
            i <= loaded@.len(),
            forall|k: int| 0 <= k < i ==> (#[trigger] loaded@[k])@ != name@,
        decreases loaded@.len() - i,
    {
        if same_text(loaded[i].as_str(), name) {
            let mut reason = String::from_str("codec '");
            reason.append(name);
            reason.append("' already loaded");
            return Err(AroundError::CodecLoadFailed { path: Some(path.to_owned()), reason });
        }
        i = i + 1;
    }
    Ok(())
}

/// Name of the temporary file a codec given as bytes is written to:
/// `around_decoder_NAME.EXT`.
pub fn temp_library_name(name: &str, dll_extension: &str) -> (r: String)
    ensures
        r@ == "around_decoder_"@ + name@ + "."@ + dll_extension@,
{
    let mut r = String::from_str("around_decoder_");
    r.append(name);
    r.append(".");
    r.append(dll_extension);
    r
}

/// Entry of the test slot: an id.
#[derive(Debug, Clone, Copy, PartialEq, Eq, Structural)]
pub struct TestEntry {
    pub id: u32,
}

/// What the test slot's factory creates for slot index `index`: one entry,
/// id 42, for index 0, and nothing after it.
pub fn test_entry_for(index: usize) -> (r: Option<TestEntry>)
    ensures
        index == 0 ==> r == Some(TestEntry { id: 42 }),
        index != 0 ==> r is None,
{
    if index == 0 {
        Some(TestEntry { id: 42 })
    } else {
        None
    }
}

} // verus!
