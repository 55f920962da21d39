//! Extension slots: their names, the symbol a plugin exports to fill one, and
//! the options a slot declaration takes.
use vstd::prelude::*;
use crate::text::{lowercase_of, same_text, spec_ascii_lower, to_lowercase};
use vstd::utf8::{encode_utf8, is_ascii_chars};

verus! {

/// Name of the codec slot.
pub const CODEC_NAME: &'static str = "around_audio_sdk::Codec";

/// Symbol a codec plugin exports to create its codecs.
pub const CODEC_CREATE_SYM: &'static str = "around_audio_sdk_codec_create";

/// Name of the filter slot.
pub const FILTER_NAME: &'static str = "around_audio_sdk::Filter";

/// Symbol a filter plugin exports to create its filters.
pub const FILTER_CREATE_SYM: &'static str = "around_audio_sdk_filter_create";

/// `s` with every `::`, scanning from the left, replaced by `_`.
pub open spec fn spec_replace_path_sep(s: Seq<char>) -> Seq<char>
    decreases s.len(),
{
    if s.len() == 0 {
        s
    } else if s.len() >= 2 && s[0] == ':' && s[1] == ':' {
        seq!['_'] + spec_replace_path_sep(s.subrange(2, s.len() as int))
    } else {
        seq![s[0]] + spec_replace_path_sep(s.subrange(1, s.len() as int))
    }
}

/// Replaces every `::` of `s` by `_`, left to right.
pub fn replace_path_sep(s: &str) -> (r: String)
    ensures
        r@ == spec_replace_path_sep(s@),
{
    let n = s.unicode_len();
    let mut out = String::new();
    let mut i: usize = 0;
    proof {
        assert(s@.subrange(0, n as int) =~= s@);
    }
    while i < n
        invariant
            n == s@.len(),
            i <= n,
            out@ + spec_replace_path_sep(s@.subrange(i as int, n as int)) == spec_replace_path_sep(
                s@,
            ),
        decreases n - i,
    {
        let ghost tail = s@.subrange(i as int, n as int);
        let ghost before = out@;
        let c = s.get_char(i);
        if c == ':' && i + 1 < n && s.get_char(i + 1) == ':' {
            out.append("_");
            proof {
                reveal_strlit("_");
                let rest = s@.subrange(i + 2, n as int);
                assert(tail.subrange(2, tail.len() as int) =~= rest);
                assert(spec_replace_path_sep(tail) == seq!['_'] + spec_replace_path_sep(rest));
                assert(out@ + spec_replace_path_sep(rest) =~= before + spec_replace_path_sep(tail));
            }
            i = i + 2;
        } else {
            let one = s.substring_char(i, i + 1);
            out.append(one);
            proof {
                let rest = s@.subrange(i + 1, n as int);
                assert(tail.subrange(1, tail.len() as int) =~= rest);
                assert(one@ =~= seq![tail[0]]);
                assert(spec_replace_path_sep(tail) == seq![tail[0]] + spec_replace_path_sep(rest));
                assert(out@ + spec_replace_path_sep(rest) =~= before + spec_replace_path_sep(tail));
            }
            i = i + 1;
        }
    }
    proof {
        assert(s@.subrange(n as int, n as int) =~= Seq::<char>::empty());
        assert(out@ + Seq::<char>::empty() =~= out@);
    }
    out
}

/// The symbol for a slot named `name`: the lowercase name with `::` replaced
/// by `_`, then `_create`.
pub open spec fn spec_create_symbol(name: Seq<char>) -> Seq<char> {
    spec_replace_path_sep(lowercase_of(name)) + "_create"@
}

/// [`spec_create_symbol`] of an ASCII name: lowercasing there only makes
/// capital letters small.
pub open spec fn spec_ascii_create_symbol(name: Seq<char>) -> Seq<char> {
    spec_replace_path_sep(spec_ascii_lower(name)) + "_create"@
}

pub fn create_symbol(name: &str) -> (r: String)
    ensures
        r@ == spec_create_symbol(name@),
        is_ascii_chars(name@) ==> r@ == spec_ascii_create_symbol(name@),
{
    let lower = to_lowercase(name);
    let mut r = replace_path_sep(lower.as_str());
    r.append("_create");
    r
}

/// The symbol for a slot named `name` as the bytes a loader looks up: its
/// UTF-8 encoding followed by one zero byte.
pub fn create_symbol_nul(name: &str) -> (r: Vec<u8>)
    ensures
        r@ == encode_utf8(spec_create_symbol(name@)).push(0u8),
        is_ascii_chars(name@) ==> r@ == encode_utf8(spec_ascii_create_symbol(name@)).push(0u8),
{
    let sym = create_symbol(name);
    let mut r = sym.as_str().as_bytes_vec();
    r.push(0u8);
    r
}

/// The default slot name: the crate's name, `::`, and the trait's name.
pub fn default_slot_name(crate_name_lower: &str, trait_name: &str) -> (r: String)
    ensures
        r@ == crate_name_lower@ + "::"@ + trait_name@,
{
    let mut r = crate_name_lower.to_owned();
    r.append("::");
    r.append(trait_name);
    r
}

/// The default symbol: crate, `_`, lowercase trait name, `_create`.
pub fn default_create_symbol(crate_name_lower: &str, trait_name_lower: &str) -> (r: String)
    ensures
        r@ == crate_name_lower@ + "_"@ + trait_name_lower@ + "_create"@,
{
    let mut r = crate_name_lower.to_owned();
    r.append("_");
    r.append(trait_name_lower);
    r.append("_create");
    r
}

/// Whether `s` holds no `:`.
pub open spec fn spec_colon_free(s: Seq<char>) -> bool {
    forall|i: int| 0 <= i < s.len() ==> s[i] != ':'
}

proof fn lemma_replace_colon_free(s: Seq<char>)
    requires
        spec_colon_free(s),
    ensures
        spec_replace_path_sep(s) == s,
    decreases s.len(),
{
    if s.len() > 0 {
        let rest = s.subrange(1, s.len() as int);
        lemma_replace_colon_free(rest);
        assert(seq![s[0]] + rest =~= s);
    }
}

proof fn lemma_replace_joined(a: Seq<char>, b: Seq<char>)
    requires
        spec_colon_free(a),
    ensures
        spec_replace_path_sep(a + seq![':', ':'] + b) == a + seq!['_'] + spec_replace_path_sep(b),
    decreases a.len(),
{
    let s = a + seq![':', ':'] + b;
    if a.len() == 0 {
        assert(s =~= seq![':', ':'] + b);
        assert(s.subrange(2, s.len() as int) =~= b);
        assert(a + seq!['_'] + spec_replace_path_sep(b) =~= seq!['_'] + spec_replace_path_sep(b));
    } else {
        let rest = a.subrange(1, a.len() as int);
        lemma_replace_joined(rest, b);
        assert(s.subrange(1, s.len() as int) =~= rest + seq![':', ':'] + b);
        assert(a[0] != ':');
        assert(a + seq!['_'] + spec_replace_path_sep(b) =~= seq![a[0]] + (rest + seq!['_']
            + spec_replace_path_sep(b)));
    }
}

/// A default slot's symbol is the symbol of its default name: for an ASCII
/// crate name that is already lowercase and an ASCII trait name, neither
/// holding `:`, the symbol made from `crate::Trait` (lowercase, `::` to `_`,
/// `_create`) is the crate name, `_`, the lowercase trait name and `_create`.
pub proof fn law_default_symbol_of_default_name(crate_name_lower: Seq<char>, trait_name: Seq<char>)
    requires
        is_ascii_chars(crate_name_lower),
        spec_ascii_lower(crate_name_lower) == crate_name_lower,
        spec_colon_free(crate_name_lower),
        is_ascii_chars(trait_name),
        spec_colon_free(trait_name),
    ensures
        is_ascii_chars(crate_name_lower + "::"@ + trait_name),
        spec_ascii_create_symbol(crate_name_lower + "::"@ + trait_name) == crate_name_lower + "_"@
            + spec_ascii_lower(trait_name) + "_create"@,
{
    reveal_strlit("::");
    reveal_strlit("_");
    let sep = seq![':', ':'];
    assert("::"@ =~= sep);
    assert("_"@ =~= seq!['_']);
    let name = crate_name_lower + sep + trait_name;
    let lower = spec_ascii_lower(trait_name);
    assert(spec_ascii_lower(name) =~= crate_name_lower + sep + lower) by {
        assert(spec_ascii_lower(sep) =~= sep);
        assert forall|i: int| 0 <= i < name.len() implies #[trigger] spec_ascii_lower(name)[i] == (
        crate_name_lower + sep + lower)[i] by {
            if i < crate_name_lower.len() {
                assert(spec_ascii_lower(crate_name_lower)[i] == crate_name_lower[i]);
            }
        }
    }
    assert(spec_colon_free(lower)) by {
        assert forall|i: int| 0 <= i < lower.len() implies lower[i] != ':' by {
            assert(trait_name[i] != ':');
        }
    }
    lemma_replace_joined(crate_name_lower, lower);
    lemma_replace_colon_free(lower);
}

/// The codec and filter slots' symbols are those made from their names.
pub proof fn law_slot_symbols_match_names()
    ensures
        is_ascii_chars(CODEC_NAME@),
        spec_ascii_create_symbol(CODEC_NAME@) == CODEC_CREATE_SYM@,
        is_ascii_chars(FILTER_NAME@),
        spec_ascii_create_symbol(FILTER_NAME@) == FILTER_CREATE_SYM@,
{
    reveal_strlit("around_audio_sdk::Codec");
    reveal_strlit("around_audio_sdk_codec_create");
    reveal_strlit("around_audio_sdk::Filter");
    reveal_strlit("around_audio_sdk_filter_create");
    reveal_strlit("around_audio_sdk");
    reveal_strlit("Codec");
    reveal_strlit("Filter");
    reveal_strlit("codec");
    reveal_strlit("filter");
    reveal_strlit("::");
    reveal_strlit("_");
    reveal_strlit("_create");
    let krate = "around_audio_sdk"@;
    assert(spec_ascii_lower(krate) =~= krate);
    assert(CODEC_NAME@ =~= krate + "::"@ + "Codec"@);
    assert(FILTER_NAME@ =~= krate + "::"@ + "Filter"@);
    assert(spec_ascii_lower("Codec"@) =~= "codec"@);
    assert(spec_ascii_lower("Filter"@) =~= "filter"@);
    law_default_symbol_of_default_name(krate, "Codec"@);
    law_default_symbol_of_default_name(krate, "Filter"@);
    assert(CODEC_CREATE_SYM@ =~= krate + "_"@ + "codec"@ + "_create"@);
    assert(FILTER_CREATE_SYM@ =~= krate + "_"@ + "filter"@ + "_create"@);
}

/// How a slot stores its entries.
#[derive(Debug, Clone, Copy, PartialEq, Eq, Structural)]
pub enum SlotMode {
    /// Entries in a vector, in registration order.
    VecStorage,
    /// Entries keyed by the extension that registered them.
    MapStorage,
    /// The declaring crate provides its own storage.
    Manual,
}

/// One option of a slot declaration: its key and the string given for it.
#[derive(Debug, Clone, PartialEq, Eq)]
pub struct SlotOption {
    pub key: String,
    pub value: Option<String>,
}

#[derive(Debug, Clone, PartialEq, Eq)]
pub struct SlotArgs {
    pub mode: SlotMode,
    /// Overrides the default slot name.
    pub name: Option<String>,
}

/// Why a slot declaration was refused.
#[derive(Debug, Clone, Copy, PartialEq, Eq, Structural)]
pub enum SlotArgError {
    /// `storage` was given something other than `map` or `vec`.
    BadStorage,
    /// `prefix` was removed in favour of `name`.
    PrefixRemoved,
    /// An option this declaration does not know.
    UnknownOption,
    /// `storage`, `name` or `prefix` without a value.
    MissingValue,
}

impl SlotArgError {
    pub fn message(&self) -> (r: &'static str)
        ensures
            r@ == (match self {
                SlotArgError::BadStorage => "expected `\"map\"` or `\"vec\"` for storage parameter"@,
                SlotArgError::PrefixRemoved =>
                    "prefix is removed; use name instead. Example: #[slot(name = \"crate::Trait\")]"@,
                SlotArgError::UnknownOption => "expected `storage = \"map\"`, `name = \"...\"`, or `manual`"@,
                SlotArgError::MissingValue => "expected `=` and a string"@,
            }),
    {
        match self {
            SlotArgError::BadStorage => "expected `\"map\"` or `\"vec\"` for storage parameter",
            SlotArgError::PrefixRemoved => "prefix is removed; use name instead. Example: #[slot(name = \"crate::Trait\")]",
            SlotArgError::UnknownOption => "expected `storage = \"map\"`, `name = \"...\"`, or `manual`",
            SlotArgError::MissingValue => "expected `=` and a string",
        }
    }
}

/// A name given as a string, by its text.
pub open spec fn name_view(n: Option<String>) -> Option<Seq<char>> {
    match n {
        Some(s) => Some(s@),
        None => None,
    }
}

/// Reading options `opts[from..]` in order, on top of a mode and a name read
/// so far.
pub open spec fn spec_parse_from(opts: Seq<SlotOption>, from: int, mode: SlotMode, name: Option<
    Seq<char>,
>) -> Result<(SlotMode, Option<Seq<char>>), SlotArgError>
    decreases opts.len() - from,
{
    if from < 0 || from >= opts.len() {
        Ok((mode, name))
    } else {
        let o = opts[from];
        if o.key@ == "manual"@ {
            spec_parse_from(opts, from + 1, SlotMode::Manual, name)
        } else if o.key@ == "storage"@ {
            match o.value {
                None => Err(SlotArgError::MissingValue),
                Some(v) => if v@ == "map"@ {
                    spec_parse_from(opts, from + 1, SlotMode::MapStorage, name)
                } else if v@ == "vec"@ {
                    spec_parse_from(opts, from + 1, SlotMode::VecStorage, name)
                } else {
                    Err(SlotArgError::BadStorage)
                },
            }
        } else if o.key@ == "name"@ {
            match o.value {
                None => Err(SlotArgError::MissingValue),
                Some(v) => spec_parse_from(opts, from + 1, mode, Some(v@)),
            }
        } else if o.key@ == "prefix"@ {
            match o.value {
                None => Err(SlotArgError::MissingValue),
                Some(_) => Err(SlotArgError::PrefixRemoved),
            }
        } else {
            Err(SlotArgError::UnknownOption)
        }
    }
}

/// Reads the options of a slot declaration in order; later options override
/// earlier ones. With none, the slot is vec-backed with its default name.
pub fn parse_slot_args(opts: &[SlotOption]) -> (r: Result<SlotArgs, SlotArgError>)
    ensures
        match (r, spec_parse_from(opts@, 0, SlotMode::VecStorage, None)) {
            (Ok(a), Ok((mode, name))) => a.mode == mode && name_view(a.name) == name,
            (Err(e), Err(f)) => e == f,
            _ => false,
        },
{
    let mut mode = SlotMode::VecStorage;
    let mut name: Option<String> = None;
    let mut i: usize = 0;
    while i < opts.len()
        invariant
            i <= opts@.len(),
            spec_parse_from(opts@, i as int, mode, name_view(name)) == spec_parse_from(
                opts@,
                0,
                SlotMode::VecStorage,
                None,
            ),
        decreases opts@.len() - i,
    {
        let o = &opts[i];
        if same_text(o.key.as_str(), "manual") {
            mode = SlotMode::Manual;
        } else if same_text(o.key.as_str(), "storage") {
            match &o.value {
                None => {
                    return Err(SlotArgError::MissingValue);
                },
                Some(v) => {
                    if same_text(v.as_str(), "map") {
                        mode = SlotMode::MapStorage;
                    } else if same_text(v.as_str(), "vec") {
                        mode = SlotMode::VecStorage;
                    } else {
                        return Err(SlotArgError::BadStorage);
                    }
                },
            }
        } else if same_text(o.key.as_str(), "name") {
            match &o.value {
                None => {
                    return Err(SlotArgError::MissingValue);
                },
                Some(v) => {
                    name = Some(v.clone());
                },
            }
        } else if same_text(o.key.as_str(), "prefix") {
            match &o.value {
                None => {
                    return Err(SlotArgError::MissingValue);
                },
                Some(_) => {
                    return Err(SlotArgError::PrefixRemoved);
                },
            }
        } else {
            return Err(SlotArgError::UnknownOption);
        }
        i = i + 1;
    }
    Ok(SlotArgs { mode, name })
}

} // verus!
