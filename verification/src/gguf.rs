//! GGUF header reading for structural architecture detection. Only the
//! header (metadata key/value block and tensor-info block) is read, never the
//! tensor data; the layout and value-type tags follow GGUF v2/v3 as
//! city96/ComfyUI-GGUF reads them.
use vstd::prelude::*;
use crate::architecture::{architecture_spec, gguf_arch_spec, gguf_arch_to_app_arch, infer_architecture_from_key_names};
use crate::text::{str_views, string_views};

verus! {

pub const GGUF_MAGIC: u32 = 0x46554747;
pub const GGUF_TYPE_UINT8: u32 = 0;
pub const GGUF_TYPE_INT8: u32 = 1;
pub const GGUF_TYPE_UINT16: u32 = 2;
pub const GGUF_TYPE_INT16: u32 = 3;
pub const GGUF_TYPE_UINT32: u32 = 4;
pub const GGUF_TYPE_INT32: u32 = 5;
pub const GGUF_TYPE_FLOAT32: u32 = 6;
pub const GGUF_TYPE_BOOL: u32 = 7;
pub const GGUF_TYPE_STRING: u32 = 8;
pub const GGUF_TYPE_ARRAY: u32 = 9;
pub const GGUF_TYPE_UINT64: u32 = 10;
pub const GGUF_TYPE_INT64: u32 = 11;
pub const GGUF_TYPE_FLOAT64: u32 = 12;

pub const GGUF_MAX_STRING_LEN: u64 = 1048576;
pub const GGUF_MAX_KV_COUNT: u64 = 10000;
pub const GGUF_MAX_TENSOR_COUNT: u64 = 200000;
pub const GGUF_MAX_ARRAY_COUNT: u64 = 1000000000;
pub const GGUF_MAX_NDIMS: u32 = 8;

/// Why a GGUF header could not be read.
#[derive(Debug, Clone, Copy, PartialEq, Eq, Structural)]
pub enum GgufError {
    /// The bytes end before the header does.
    Truncated,
    StringTooLong,
    InvalidUtf8,
    NestedArray,
    ArrayTooLong,
    UnknownArrayType,
    UnknownValueType,
    TooManyTensors,
    TooManyKvs,
    TooManyDims,
}

// ---------------------------------------------------------------------------
// Little-endian integers
// ---------------------------------------------------------------------------

pub open spec fn le_u32(b: Seq<u8>, pos: int) -> nat {
    (b[pos] as nat) + 256 * (b[pos + 1] as nat) + 65536 * (b[pos + 2] as nat)
        + 16777216 * (b[pos + 3] as nat)
}

pub open spec fn le_u64(b: Seq<u8>, pos: int) -> nat {
    le_u32(b, pos) + 4294967296 * le_u32(b, pos + 4)
}

/// A little-endian `u32` at `pos`, and the position after it.
pub fn read_u32_le(b: &[u8], pos: usize) -> (r: Result<(u32, usize), GgufError>)
    ensures
        match r {
            Ok((v, p)) => pos + 4 <= b.len() && v == le_u32(b@, pos as int) && p == pos + 4,
            Err(e) => pos + 4 > b.len() && e == GgufError::Truncated,
        },
{
    if pos > b.len() || b.len() - pos < 4 {
        return Err(GgufError::Truncated);
    }
    let v: u32 = (b[pos] as u32) + 256 * (b[pos + 1] as u32) + 65536 * (b[pos + 2] as u32)
        + 16777216 * (b[pos + 3] as u32);
    Ok((v, pos + 4))
}

/// A little-endian `u64` at `pos`, and the position after it.
pub fn read_u64_le(b: &[u8], pos: usize) -> (r: Result<(u64, usize), GgufError>)
    ensures
        match r {
            Ok((v, p)) => pos + 8 <= b.len() && v == le_u64(b@, pos as int) && p == pos + 8,
            Err(e) => pos + 8 > b.len() && e == GgufError::Truncated,
        },
{
    if pos > b.len() || b.len() - pos < 8 {
        return Err(GgufError::Truncated);
    }
    let (lo, _) = match read_u32_le(b, pos) {
        Ok(x) => x,
        Err(e) => return Err(e),
    };
    let (hi, _) = match read_u32_le(b, pos + 4) {
        Ok(x) => x,
        Err(e) => return Err(e),
    };
    let v: u64 = (lo as u64) + 4294967296 * (hi as u64);
    Ok((v, pos + 8))
}

/// The position `n` bytes on, when that many bytes remain.
pub fn skip_bytes(b: &[u8], pos: usize, n: u64) -> (r: Result<usize, GgufError>)
    requires
        pos <= b.len(),
    ensures
        match r {
            Ok(p) => pos + n <= b.len() && p == pos + n,
            Err(e) => pos + n > b.len() && e == GgufError::Truncated,
        },
{
    if n > (b.len() - pos) as u64 {
        return Err(GgufError::Truncated);
    }
    Ok(pos + n as usize)
}

/// Byte size of a fixed-width GGUF scalar value type, or `None` for the
/// variable-length types (string, array) and unknown tags.
pub open spec fn scalar_size(vtype: u32) -> Option<nat> {
    if vtype == GGUF_TYPE_UINT8 || vtype == GGUF_TYPE_INT8 || vtype == GGUF_TYPE_BOOL {
        Some(1)
    } else if vtype == GGUF_TYPE_UINT16 || vtype == GGUF_TYPE_INT16 {
        Some(2)
    } else if vtype == GGUF_TYPE_UINT32 || vtype == GGUF_TYPE_INT32 || vtype == GGUF_TYPE_FLOAT32 {
        Some(4)
    } else if vtype == GGUF_TYPE_UINT64 || vtype == GGUF_TYPE_INT64 || vtype == GGUF_TYPE_FLOAT64 {
        Some(8)
    } else {
        None
    }
}

pub fn gguf_scalar_size(vtype: u32) -> (r: Option<u64>)
    ensures
        match r {
            Some(n) => scalar_size(vtype) == Some(n as nat),
            None => scalar_size(vtype) is None,
        },
{
    if vtype == GGUF_TYPE_UINT8 || vtype == GGUF_TYPE_INT8 || vtype == GGUF_TYPE_BOOL {
        Some(1)
    } else if vtype == GGUF_TYPE_UINT16 || vtype == GGUF_TYPE_INT16 {
        Some(2)
    } else if vtype == GGUF_TYPE_UINT32 || vtype == GGUF_TYPE_INT32 || vtype == GGUF_TYPE_FLOAT32 {
        Some(4)
    } else if vtype == GGUF_TYPE_UINT64 || vtype == GGUF_TYPE_INT64 || vtype == GGUF_TYPE_FLOAT64 {
        Some(8)
    } else {
        None
    }
}

// ---------------------------------------------------------------------------
// Strings and values
// ---------------------------------------------------------------------------

/// What `String::from_utf8` makes of bytes: their text when they are valid
/// UTF-8, else nothing.
pub open spec fn utf8_text(bytes: Seq<u8>) -> Option<Seq<char>> {
    if vstd::utf8::valid_utf8(bytes) {
        Some(vstd::utf8::decode_utf8(bytes))
    } else {
        None
    }
}

/// `String::from_utf8`: the bytes' text exactly when they are valid UTF-8
/// (as vstd's UTF-8 functions define it), else an error.
#[verifier::external_body]
fn decode_utf8(bytes: Vec<u8>) -> (r: Option<String>)
    ensures
        match r {
            Some(s) => utf8_text(bytes@) == Some(s@),
            None => utf8_text(bytes@) is None,
        },
{
    String::from_utf8(bytes).ok()
}

/// The raw bytes of the GGUF string at `pos` (a `u64` length of at most
/// 1 MiB, then that many bytes) and the position after it.
pub open spec fn string_at(b: Seq<u8>, pos: int) -> Result<(Seq<u8>, int), GgufError> {
    if pos + 8 > b.len() {
        Err(GgufError::Truncated)
    } else {
        let len = le_u64(b, pos);
        if len > GGUF_MAX_STRING_LEN {
            Err(GgufError::StringTooLong)
        } else if pos + 8 + len > b.len() {
            Err(GgufError::Truncated)
        } else {
            Ok((b.subrange(pos + 8, pos + 8 + len), pos + 8 + len))
        }
    }
}

/// The GGUF string at `pos` as text.
pub open spec fn text_at(b: Seq<u8>, pos: int) -> Result<(Seq<char>, int), GgufError> {
    match string_at(b, pos) {
        Ok((raw, p)) => match utf8_text(raw) {
            Some(t) => Ok((t, p)),
            None => Err(GgufError::InvalidUtf8),
        },
        Err(e) => Err(e),
    }
}

pub open spec fn after_string(b: Seq<u8>, pos: int) -> Result<int, GgufError> {
    match string_at(b, pos) {
        Ok((_, p)) => Ok(p),
        Err(e) => Err(e),
    }
}

/// The position after `count` GGUF strings starting at `pos`.
pub open spec fn after_strings(b: Seq<u8>, pos: int, count: nat) -> Result<int, GgufError>
    decreases count,
{
    if count == 0 {
        Ok(pos)
    } else {
        match after_string(b, pos) {
            Ok(p) => after_strings(b, p, (count - 1) as nat),
            Err(e) => Err(e),
        }
    }
}

/// The position after the body of a metadata value of type `vtype` at
/// `pos`. Arrays of arrays are refused, and unknown types are an error so
/// that a malformed header fails instead of desynchronising.
pub open spec fn after_value(b: Seq<u8>, pos: int, vtype: u32) -> Result<int, GgufError> {
    match scalar_size(vtype) {
        Some(n) => if pos + n > b.len() { Err(GgufError::Truncated) } else { Ok(pos + n) },
        None => if vtype == GGUF_TYPE_STRING {
            after_string(b, pos)
        } else if vtype == GGUF_TYPE_ARRAY {
            if pos + 4 > b.len() {
                Err(GgufError::Truncated)
            } else {
                let et = le_u32(b, pos) as u32;
                if et == GGUF_TYPE_ARRAY {
                    Err(GgufError::NestedArray)
                } else if pos + 12 > b.len() {
                    Err(GgufError::Truncated)
                } else {
                    let count = le_u64(b, pos + 4);
                    if count > GGUF_MAX_ARRAY_COUNT {
                        Err(GgufError::ArrayTooLong)
                    } else {
                        match scalar_size(et) {
                            Some(n) => if pos + 12 + n * count > b.len() {
                                Err(GgufError::Truncated)
                            } else {
                                Ok(pos + 12 + n * count)
                            },
                            None => if et == GGUF_TYPE_STRING {
                                after_strings(b, pos + 12, count)
                            } else {
                                Err(GgufError::UnknownArrayType)
                            },
                        }
                    }
                }
            }
        } else {
            Err(GgufError::UnknownValueType)
        },
    }
}

/// Read the GGUF string at `pos` as text.
pub fn read_gguf_string(b: &[u8], pos: usize) -> (r: Result<(String, usize), GgufError>)
    ensures
        match r {
            Ok((s, p)) => text_at(b@, pos as int) == Ok::<(Seq<char>, int), GgufError>((s@, p as int)),
            Err(e) => text_at(b@, pos as int) == Err::<(Seq<char>, int), GgufError>(e),
        },
{
    let (len, p) = match read_u64_le(b, pos) {
        Ok(x) => x,
        Err(e) => return Err(e),
    };
    if len > GGUF_MAX_STRING_LEN {
        return Err(GgufError::StringTooLong);
    }
    let end = match skip_bytes(b, p, len) {
        Ok(e) => e,
        Err(e) => return Err(e),
    };
    let raw = crate::text::copy_range(b, p, end);
    match decode_utf8(raw) {
        Some(s) => Ok((s, end)),
        None => Err(GgufError::InvalidUtf8),
    }
}

/// Skip the GGUF string at `pos`.
pub fn skip_gguf_string(b: &[u8], pos: usize) -> (r: Result<usize, GgufError>)
    ensures
        match r {
            Ok(p) => after_string(b@, pos as int) == Ok::<int, GgufError>(p as int) && p <= b.len(),
            Err(e) => after_string(b@, pos as int) == Err::<int, GgufError>(e),
        },
{
    let (len, p) = match read_u64_le(b, pos) {
        Ok(x) => x,
        Err(e) => return Err(e),
    };
    if len > GGUF_MAX_STRING_LEN {
        return Err(GgufError::StringTooLong);
    }
    skip_bytes(b, p, len)
}

/// Skip the body of a metadata value of type `vtype` at `pos` (its type tag
/// has already been read).
pub fn skip_gguf_value(b: &[u8], pos: usize, vtype: u32) -> (r: Result<usize, GgufError>)
    requires
        pos <= b.len(),
    ensures
        match r {
            Ok(p) => after_value(b@, pos as int, vtype) == Ok::<int, GgufError>(p as int) && p <= b.len(),
            Err(e) => after_value(b@, pos as int, vtype) == Err::<int, GgufError>(e),
        },
{
    match gguf_scalar_size(vtype) {
        Some(size) => return skip_bytes(b, pos, size),
        None => {},
    }
    if vtype == GGUF_TYPE_STRING {
        return skip_gguf_string(b, pos);
    }
    if vtype != GGUF_TYPE_ARRAY {
        return Err(GgufError::UnknownValueType);
    }
    let (elem_type, p1) = match read_u32_le(b, pos) {
        Ok(x) => x,
        Err(e) => return Err(e),
    };
    if elem_type == GGUF_TYPE_ARRAY {
        return Err(GgufError::NestedArray);
    }
    let (count, p2) = match read_u64_le(b, p1) {
        Ok(x) => x,
        Err(e) => return Err(e),
    };
    if count > GGUF_MAX_ARRAY_COUNT {
        return Err(GgufError::ArrayTooLong);
    }
    match gguf_scalar_size(elem_type) {
        Some(size) => {
            assert(size * count <= 8 * 1000000000) by (nonlinear_arith)
                requires
                    size <= 8,
                    count <= 1000000000,
            ;
            skip_bytes(b, p2, size * count)
        },
        None => {
            if elem_type != GGUF_TYPE_STRING {
                return Err(GgufError::UnknownArrayType);
            }
            let mut p = p2;
            let mut k: u64 = 0;
            assert(after_value(b@, pos as int, vtype) == after_strings(b@, p2 as int, count as nat));
            while k < count
                invariant
                    k <= count,
                    p <= b.len(),
                    after_value(b@, pos as int, vtype) == after_strings(b@, p2 as int, count as nat),
                    after_strings(b@, p2 as int, count as nat)
                        == after_strings(b@, p as int, (count - k) as nat),
                decreases count - k,
            {
                let ghost before = p;
                p = match skip_gguf_string(b, p) {
                    Ok(q) => q,
                    Err(e) => {
                        assert(after_strings(b@, before as int, (count - k) as nat) == Err::<int, GgufError>(e));
                        return Err(e);
                    },
                };
                assert(after_strings(b@, before as int, (count - k) as nat)
                    == after_strings(b@, p as int, (count - (k + 1)) as nat));
                k += 1;
            }
            Ok(p)
        },
    }
}

// ---------------------------------------------------------------------------
// The header
// ---------------------------------------------------------------------------

/// The metadata key/value block from `pos`, with `remaining` pairs left:
/// the last `general.architecture` string value seen (starting from `arch`)
/// and the position after the block. Every other value is skipped.
pub open spec fn kv_block(b: Seq<u8>, pos: int, remaining: nat, arch: Option<Seq<char>>) -> Result<(Option<Seq<char>>, int), GgufError>
    decreases remaining,
{
    if remaining == 0 {
        Ok((arch, pos))
    } else {
        match text_at(b, pos) {
            Err(e) => Err(e),
            Ok((key, p1)) => if p1 + 4 > b.len() {
                Err(GgufError::Truncated)
            } else {
                let vtype = le_u32(b, p1) as u32;
                if key == "general.architecture"@ && vtype == GGUF_TYPE_STRING {
                    match text_at(b, p1 + 4) {
                        Ok((a, p3)) => kv_block(b, p3, (remaining - 1) as nat, Some(a)),
                        Err(e) => Err(e),
                    }
                } else {
                    match after_value(b, p1 + 4, vtype) {
                        Ok(p3) => kv_block(b, p3, (remaining - 1) as nat, arch),
                        Err(e) => Err(e),
                    }
                }
            },
        }
    }
}

/// The tensor-info block from `pos`, with `remaining` entries left: the
/// tensor names (after `names`) and the position after the block. Each entry
/// is a name, a dimension count of at most 8, the `u64` dimensions, a `u32`
/// type and a `u64` offset.
pub open spec fn tensor_block(b: Seq<u8>, pos: int, remaining: nat, names: Seq<Seq<char>>) -> Result<(Seq<Seq<char>>, int), GgufError>
    decreases remaining,
{
    if remaining == 0 {
        Ok((names, pos))
    } else {
        match text_at(b, pos) {
            Err(e) => Err(e),
            Ok((name, p1)) => if p1 + 4 > b.len() {
                Err(GgufError::Truncated)
            } else {
                let nd = le_u32(b, p1);
                if nd > GGUF_MAX_NDIMS {
                    Err(GgufError::TooManyDims)
                } else if p1 + 4 + nd * 8 > b.len() {
                    Err(GgufError::Truncated)
                } else if p1 + 4 + nd * 8 + 12 > b.len() {
                    Err(GgufError::Truncated)
                } else {
                    tensor_block(b, p1 + 4 + nd * 8 + 12, (remaining - 1) as nat, names.push(name))
                }
            },
        }
    }
}

/// What a GGUF header holds: `None` when the bytes are no GGUF container
/// (wrong magic); else its declared `general.architecture`, if any, and its
/// tensor names.
pub open spec fn header_spec(b: Seq<u8>) -> Result<Option<(Option<Seq<char>>, Seq<Seq<char>>)>, GgufError> {
    if b.len() < 4 {
        Err(GgufError::Truncated)
    } else if le_u32(b, 0) != GGUF_MAGIC {
        Ok(None)
    } else if b.len() < 16 {
        Err(GgufError::Truncated)
    } else if le_u64(b, 8) > GGUF_MAX_TENSOR_COUNT {
        Err(GgufError::TooManyTensors)
    } else if b.len() < 24 {
        Err(GgufError::Truncated)
    } else if le_u64(b, 16) > GGUF_MAX_KV_COUNT {
        Err(GgufError::TooManyKvs)
    } else {
        match kv_block(b, 24, le_u64(b, 16), None) {
            Err(e) => Err(e),
            Ok((arch, p)) => match tensor_block(b, p, le_u64(b, 8), Seq::<Seq<char>>::empty()) {
                Err(e) => Err(e),
                Ok((names, _)) => Ok(Some((arch, names))),
            },
        }
    }
}

/// The rest of `header_spec` once both counts have passed their caps.
pub open spec fn header_blocks(b: Seq<u8>, tensor_count: nat, kv_count: nat) -> Result<Option<(Option<Seq<char>>, Seq<Seq<char>>)>, GgufError> {
    match kv_block(b, 24, kv_count, None) {
        Err(e) => Err(e),
        Ok((arch, p)) => tensor_result(b, p, tensor_count, arch),
    }
}

pub open spec fn tensor_result(b: Seq<u8>, p: int, tensor_count: nat, arch: Option<Seq<char>>) -> Result<Option<(Option<Seq<char>>, Seq<Seq<char>>)>, GgufError> {
    match tensor_block(b, p, tensor_count, Seq::<Seq<char>>::empty()) {
        Err(e) => Err(e),
        Ok((names, _)) => Ok(Some((arch, names))),
    }
}

/// The parts of a GGUF header that structural detection reads.
pub struct GgufHeader {
    pub general_architecture: Option<String>,
    pub tensor_names: Vec<String>,
}

pub open spec fn opt_view(o: Option<String>) -> Option<Seq<char>> {
    match o {
        Some(s) => Some(s@),
        None => None,
    }
}

impl View for GgufHeader {
    type V = (Option<Seq<char>>, Seq<Seq<char>>);

    open spec fn view(&self) -> (Option<Seq<char>>, Seq<Seq<char>>) {
        (opt_view(self.general_architecture), string_views(self.tensor_names@))
    }
}

fn push_name(names: &mut Vec<String>, name: String)
    ensures
        string_views(final(names)@) == string_views(old(names)@).push(name@),
{
    let ghost before = names@;
    names.push(name);
    assert(string_views(names@) =~= string_views(before).push(name@));
}

/// Read a GGUF header from the first bytes of a file.
pub fn read_gguf_header(b: &[u8]) -> (r: Result<Option<GgufHeader>, GgufError>)
    ensures
        match r {
            Ok(Some(h)) => header_spec(b@) == Ok::<Option<(Option<Seq<char>>, Seq<Seq<char>>)>, GgufError>(Some(h@)),
            Ok(None) => header_spec(b@) == Ok::<Option<(Option<Seq<char>>, Seq<Seq<char>>)>, GgufError>(None),
            Err(e) => header_spec(b@) == Err::<Option<(Option<Seq<char>>, Seq<Seq<char>>)>, GgufError>(e),
        },
{
    proof { reveal_strlit("general.architecture"); }
    let (magic, p0) = match read_u32_le(b, 0) {
        Ok(x) => x,
        Err(e) => return Err(e),
    };
    if magic != GGUF_MAGIC {
        return Ok(None);
    }
    // The version is not checked: a v1 file's 32-bit counts misparse under
    // the v2/v3 layout, and the caps below catch the garbage.
    let (_version, p1) = match read_u32_le(b, p0) {
        Ok(x) => x,
        Err(e) => return Err(e),
    };
    let (tensor_count, p2) = match read_u64_le(b, p1) {
        Ok(x) => x,
        Err(e) => return Err(e),
    };
    if tensor_count > GGUF_MAX_TENSOR_COUNT {
        return Err(GgufError::TooManyTensors);
    }
    let (kv_count, p3) = match read_u64_le(b, p2) {
        Ok(x) => x,
        Err(e) => return Err(e),
    };
    if kv_count > GGUF_MAX_KV_COUNT {
        return Err(GgufError::TooManyKvs);
    }
    let mut general_arch: Option<String> = None;
    let mut p = p3;
    let mut k: u64 = 0;
    let key_chars = crate::text::chars_of("general.architecture");
    assert(header_spec(b@) == header_blocks(b@, tensor_count as nat, kv_count as nat));
    while k < kv_count
        invariant
            k <= kv_count,
            p <= b.len(),
            key_chars@ == "general.architecture"@,
            header_spec(b@) == header_blocks(b@, tensor_count as nat, kv_count as nat),
            kv_block(b@, 24, kv_count as nat, None)
                == kv_block(b@, p as int, (kv_count - k) as nat, opt_view(general_arch)),
        decreases kv_count - k,
    {
        let ghost before = p;
        let ghost arch_before = opt_view(general_arch);
        let ghost rem = (kv_count - k) as nat;
        let (key, q1) = match read_gguf_string(b, p) {
            Ok(x) => x,
            Err(e) => {
                assert(kv_block(b@, before as int, rem, arch_before) == Err::<(Option<Seq<char>>, int), GgufError>(e));
                return Err(e);
            },
        };
        let (vtype, q2) = match read_u32_le(b, q1) {
            Ok(x) => x,
            Err(e) => {
                assert(kv_block(b@, before as int, rem, arch_before) == Err::<(Option<Seq<char>>, int), GgufError>(e));
                return Err(e);
            },
        };
        assert(vtype == le_u32(b@, q1 as int) as u32);
        let kc = crate::text::chars_of(key.as_str());
        if crate::text::same_chars(&kc, &key_chars) && vtype == GGUF_TYPE_STRING {
            let (a, q3) = match read_gguf_string(b, q2) {
                Ok(x) => x,
                Err(e) => {
                    assert(kv_block(b@, before as int, rem, arch_before) == Err::<(Option<Seq<char>>, int), GgufError>(e));
                    return Err(e);
                },
            };
            general_arch = Some(a);
            p = q3;
            assert(kv_block(b@, before as int, rem, arch_before)
                == kv_block(b@, p as int, (rem - 1) as nat, opt_view(general_arch)));
        } else {
            p = match skip_gguf_value(b, q2, vtype) {
                Ok(q3) => q3,
                Err(e) => {
                    assert(kv_block(b@, before as int, rem, arch_before) == Err::<(Option<Seq<char>>, int), GgufError>(e));
                    return Err(e);
                },
            };
            assert(kv_block(b@, before as int, rem, arch_before)
                == kv_block(b@, p as int, (rem - 1) as nat, opt_view(general_arch)));
        }
        k += 1;
    }
    let mut names: Vec<String> = Vec::new();
    let ghost kv_end = p;
    let mut t: u64 = 0;
    assert(string_views(names@) =~= Seq::<Seq<char>>::empty());
    assert(kv_block(b@, p as int, 0, opt_view(general_arch)) == Ok::<(Option<Seq<char>>, int), GgufError>((opt_view(general_arch), p as int)));
    assert(header_spec(b@) == tensor_result(b@, kv_end as int, tensor_count as nat, opt_view(general_arch)));
    while t < tensor_count
        invariant
            t <= tensor_count,
            p <= b.len(),
            header_spec(b@) == tensor_result(b@, kv_end as int, tensor_count as nat, opt_view(general_arch)),
            tensor_block(b@, kv_end as int, tensor_count as nat, Seq::<Seq<char>>::empty())
                == tensor_block(b@, p as int, (tensor_count - t) as nat, string_views(names@)),
        decreases tensor_count - t,
    {
        let ghost before = p;
        let ghost rem = (tensor_count - t) as nat;
        let ghost nv = string_views(names@);
        let (name, q1) = match read_gguf_string(b, p) {
            Ok(x) => x,
            Err(e) => {
                assert(tensor_block(b@, before as int, rem, nv) == Err::<(Seq<Seq<char>>, int), GgufError>(e));
                return Err(e);
            },
        };
        let (n_dims, q2) = match read_u32_le(b, q1) {
            Ok(x) => x,
            Err(e) => {
                assert(tensor_block(b@, before as int, rem, nv) == Err::<(Seq<Seq<char>>, int), GgufError>(e));
                return Err(e);
            },
        };
        if n_dims > GGUF_MAX_NDIMS {
            assert(tensor_block(b@, before as int, rem, nv) == Err::<(Seq<Seq<char>>, int), GgufError>(GgufError::TooManyDims));
            return Err(GgufError::TooManyDims);
        }
        let q3 = match skip_bytes(b, q2, (n_dims as u64) * 8) {
            Ok(q) => q,
            Err(e) => {
                assert(tensor_block(b@, before as int, rem, nv) == Err::<(Seq<Seq<char>>, int), GgufError>(e));
                return Err(e);
            },
        };
        let (_ggml_type, q4) = match read_u32_le(b, q3) {
            Ok(x) => x,
            Err(e) => {
                assert(tensor_block(b@, before as int, rem, nv) == Err::<(Seq<Seq<char>>, int), GgufError>(e));
                return Err(e);
            },
        };
        let (_offset, q5) = match read_u64_le(b, q4) {
            Ok(x) => x,
            Err(e) => {
                assert(tensor_block(b@, before as int, rem, nv) == Err::<(Seq<Seq<char>>, int), GgufError>(e));
                return Err(e);
            },
        };
        push_name(&mut names, name);
        p = q5;
        assert(tensor_block(b@, before as int, rem, nv)
            == tensor_block(b@, p as int, (rem - 1) as nat, string_views(names@)));
        t += 1;
    }
    Ok(Some(GgufHeader { general_architecture: general_arch, tensor_names: names }))
}

// ---------------------------------------------------------------------------
// Architecture from the header
// ---------------------------------------------------------------------------

/// What a GGUF header tells structural detection: the architecture, from
/// the tensor names first (they tell Anima's adapter apart from plain
/// Cosmos) and else from the declared `general.architecture`; and that
/// declared value itself. A GGUF is always a bare diffusion model.
pub struct GgufArchitectureMeta {
    pub architecture: Option<String>,
    pub gguf_architecture: Option<String>,
}

pub open spec fn gguf_meta_spec(h: (Option<Seq<char>>, Seq<Seq<char>>)) -> (Option<Seq<char>>, Option<Seq<char>>) {
    let arch = match architecture_spec(h.1) {
        Some(a) => Some(a),
        None => match h.0 {
            Some(g) => gguf_arch_spec(g),
            None => None,
        },
    };
    (arch, h.0)
}

impl View for GgufArchitectureMeta {
    type V = (Option<Seq<char>>, Option<Seq<char>>);

    open spec fn view(&self) -> (Option<Seq<char>>, Option<Seq<char>>) {
        (opt_view(self.architecture), opt_view(self.gguf_architecture))
    }
}

fn copy_opt(o: &Option<String>) -> (r: Option<String>)
    ensures
        opt_view(r) == opt_view(*o),
{
    match o {
        Some(s) => Some(s.clone()),
        None => None,
    }
}

/// Structural detection on a parsed GGUF header.
pub fn gguf_architecture_meta(header: &GgufHeader) -> (r: GgufArchitectureMeta)
    ensures
        r@ == gguf_meta_spec(header@),
{
    let mut refs: Vec<&str> = Vec::new();
    let mut i: usize = 0;
    while i < header.tensor_names.len()
        invariant
            i <= header.tensor_names.len(),
            str_views(refs@) =~= string_views(header.tensor_names@.take(i as int)),
        decreases header.tensor_names.len() - i,
    {
        let ghost before = refs@;
        refs.push(header.tensor_names[i].as_str());
        assert(str_views(refs@) =~= str_views(before).push(header.tensor_names@[i as int]@));
        assert(string_views(header.tensor_names@.take(i + 1))
            =~= string_views(header.tensor_names@.take(i as int)).push(header.tensor_names@[i as int]@));
        i += 1;
    }
    assert(header.tensor_names@.take(header.tensor_names.len() as int) =~= header.tensor_names@);
    let architecture = match infer_architecture_from_key_names(&refs) {
        Some(a) => Some(a),
        None => match &header.general_architecture {
            Some(g) => match gguf_arch_to_app_arch(g.as_str()) {
                Some(a) => {
                    let c = crate::text::chars_of(a);
                    Some(crate::text::string_of(&c))
                },
                None => None,
            },
            None => None,
        },
    };
    GgufArchitectureMeta { architecture, gguf_architecture: copy_opt(&header.general_architecture) }
}

/// The info fields a GGUF file contributes: always a diffusion model (GGUF
/// quantises a single component, never a full checkpoint), then the
/// architecture and the declared one when known.
pub open spec fn gguf_fields_spec(m: (Option<Seq<char>>, Option<Seq<char>>)) -> Seq<(Seq<char>, Seq<char>)> {
    seq![("model_kind"@, "diffusion_model"@), ("model_kind_source"@, "gguf"@)]
        + (match m.0 { Some(a) => seq![("architecture"@, a)], None => Seq::empty() })
        + (match m.1 { Some(g) => seq![("gguf_architecture"@, g)], None => Seq::empty() })
}

/// The info fields of a GGUF file's structural detection.
pub fn gguf_info_fields(meta: GgufArchitectureMeta) -> (r: Vec<(String, String)>)
    ensures
        r@.map_values(|p: (String, String)| (p.0@, p.1@)) == gguf_fields_spec(meta@),
{
    let ghost mv = meta@;
    let mut out: Vec<(String, String)> = Vec::new();
    out.push((owned_str("model_kind"), owned_str("diffusion_model")));
    out.push((owned_str("model_kind_source"), owned_str("gguf")));
    let ghost two = out@.map_values(|p: (String, String)| (p.0@, p.1@));
    assert(two =~= seq![("model_kind"@, "diffusion_model"@), ("model_kind_source"@, "gguf"@)]);
    match meta.architecture {
        Some(a) => {
            out.push((owned_str("architecture"), a));
        },
        None => {},
    }
    let ghost three = out@.map_values(|p: (String, String)| (p.0@, p.1@));
    assert(three =~= two + (match mv.0 { Some(a) => seq![("architecture"@, a)], None => Seq::<(Seq<char>, Seq<char>)>::empty() }));
    match meta.gguf_architecture {
        Some(g) => {
            out.push((owned_str("gguf_architecture"), g));
        },
        None => {},
    }
    assert(out@.map_values(|p: (String, String)| (p.0@, p.1@)) =~= three + (match mv.1 { Some(g) => seq![("gguf_architecture"@, g)], None => Seq::<(Seq<char>, Seq<char>)>::empty() }));
    out
}

fn owned_str(s: &str) -> (r: String)
    ensures
        r@ == s@,
{
    crate::text::string_of(&crate::text::chars_of(s))
}

/// Parse the first bytes of a file as a GGUF header and run structural
/// detection on it: `None` for a file that is no GGUF container.
pub fn read_gguf_architecture_meta(b: &[u8]) -> (r: Result<Option<GgufArchitectureMeta>, GgufError>)
    ensures
        match r {
            Ok(Some(m)) => header_spec(b@) matches Ok(Some(h)) && m@ == gguf_meta_spec(h),
            Ok(None) => header_spec(b@) == Ok::<Option<(Option<Seq<char>>, Seq<Seq<char>>)>, GgufError>(None),
            Err(e) => header_spec(b@) == Err::<Option<(Option<Seq<char>>, Seq<Seq<char>>)>, GgufError>(e),
        },
{
    match read_gguf_header(b) {
        Ok(Some(h)) => Ok(Some(gguf_architecture_meta(&h))),
        Ok(None) => Ok(None),
        Err(e) => Err(e),
    }
}

// ---------------------------------------------------------------------------
// Reading further never changes an answer
// ---------------------------------------------------------------------------

/// An answer that did not run out of bytes.
pub open spec fn settled<T>(r: Result<T, GgufError>) -> bool {
    r != Err::<T, GgufError>(GgufError::Truncated)
}

proof fn lemma_ints_extend(b: Seq<u8>, ext: Seq<u8>, pos: int)
    requires
        0 <= pos,
    ensures
        pos + 4 <= b.len() ==> le_u32(b + ext, pos) == le_u32(b, pos),
        pos + 8 <= b.len() ==> le_u64(b + ext, pos) == le_u64(b, pos),
{
    let be = b + ext;
    if pos + 4 <= b.len() {
        assert(be[pos] == b[pos] && be[pos + 1] == b[pos + 1] && be[pos + 2] == b[pos + 2] && be[pos + 3] == b[pos + 3]);
    }
    if pos + 8 <= b.len() {
        assert(be[pos + 4] == b[pos + 4] && be[pos + 5] == b[pos + 5] && be[pos + 6] == b[pos + 6] && be[pos + 7] == b[pos + 7]);
        assert(be[pos] == b[pos] && be[pos + 1] == b[pos + 1] && be[pos + 2] == b[pos + 2] && be[pos + 3] == b[pos + 3]);
    }
}

proof fn lemma_string_extends(b: Seq<u8>, ext: Seq<u8>, pos: int)
    requires
        0 <= pos,
        settled(string_at(b, pos)),
    ensures
        string_at(b + ext, pos) == string_at(b, pos),
{
    lemma_ints_extend(b, ext, pos);
    if pos + 8 <= b.len() {
        let len = le_u64(b, pos);
        if len <= GGUF_MAX_STRING_LEN && pos + 8 + len <= b.len() {
            assert((b + ext).subrange(pos + 8, pos + 8 + len) =~= b.subrange(pos + 8, pos + 8 + len));
        }
    }
}

proof fn lemma_strings_extend(b: Seq<u8>, ext: Seq<u8>, pos: int, count: nat)
    requires
        0 <= pos,
        settled(after_strings(b, pos, count)),
    ensures
        after_strings(b + ext, pos, count) == after_strings(b, pos, count),
    decreases count,
{
    if count > 0 {
        lemma_string_extends(b, ext, pos);
        match string_at(b, pos) {
            Ok((_, p)) => {
                assert(p >= pos);
                lemma_strings_extend(b, ext, p, (count - 1) as nat);
            },
            Err(_) => {},
        }
    }
}

proof fn lemma_value_extends(b: Seq<u8>, ext: Seq<u8>, pos: int, vtype: u32)
    requires
        0 <= pos,
        settled(after_value(b, pos, vtype)),
    ensures
        after_value(b + ext, pos, vtype) == after_value(b, pos, vtype),
{
    lemma_ints_extend(b, ext, pos);
    lemma_ints_extend(b, ext, pos + 4);
    if scalar_size(vtype) is None {
        if vtype == GGUF_TYPE_STRING {
            lemma_string_extends(b, ext, pos);
        } else if vtype == GGUF_TYPE_ARRAY && pos + 12 <= b.len() {
            let et = le_u32(b, pos) as u32;
            let count = le_u64(b, pos + 4);
            if et != GGUF_TYPE_ARRAY && count <= GGUF_MAX_ARRAY_COUNT && scalar_size(et) is None && et == GGUF_TYPE_STRING {
                lemma_strings_extend(b, ext, pos + 12, count);
            }
        }
    }
}

proof fn lemma_text_extends(b: Seq<u8>, ext: Seq<u8>, pos: int)
    requires
        0 <= pos,
        settled(text_at(b, pos)),
    ensures
        text_at(b + ext, pos) == text_at(b, pos),
        text_at(b, pos) matches Ok((_, p)) ==> pos <= p <= b.len(),
{
    lemma_string_extends(b, ext, pos);
}

proof fn lemma_kv_extends(b: Seq<u8>, ext: Seq<u8>, pos: int, remaining: nat, arch: Option<Seq<char>>)
    requires
        0 <= pos,
        settled(kv_block(b, pos, remaining, arch)),
    ensures
        kv_block(b + ext, pos, remaining, arch) == kv_block(b, pos, remaining, arch),
        kv_block(b, pos, remaining, arch) matches Ok((_, p)) ==> pos <= p,
    decreases remaining,
{
    if remaining > 0 {
        lemma_text_extends(b, ext, pos);
        match text_at(b, pos) {
            Ok((key, p1)) => {
                if p1 + 4 <= b.len() {
                    lemma_ints_extend(b, ext, p1);
                    let vtype = le_u32(b, p1) as u32;
                    if key == "general.architecture"@ && vtype == GGUF_TYPE_STRING {
                        lemma_text_extends(b, ext, p1 + 4);
                        match text_at(b, p1 + 4) {
                            Ok((a, p3)) => lemma_kv_extends(b, ext, p3, (remaining - 1) as nat, Some(a)),
                            Err(_) => {},
                        }
                    } else {
                        lemma_value_extends(b, ext, p1 + 4, vtype);
                        match after_value(b, p1 + 4, vtype) {
                            Ok(p3) => {
                                lemma_value_moves_forward(b, p1 + 4, vtype);
                                lemma_kv_extends(b, ext, p3, (remaining - 1) as nat, arch);
                            },
                            Err(_) => {},
                        }
                    }
                }
            },
            Err(_) => {},
        }
    }
}

proof fn lemma_strings_move_forward(b: Seq<u8>, pos: int, count: nat)
    ensures
        after_strings(b, pos, count) matches Ok(p) ==> pos <= p,
    decreases count,
{
    if count > 0 {
        match string_at(b, pos) {
            Ok((_, p)) => lemma_strings_move_forward(b, p, (count - 1) as nat),
            Err(_) => {},
        }
    }
}

proof fn lemma_value_moves_forward(b: Seq<u8>, pos: int, vtype: u32)
    ensures
        after_value(b, pos, vtype) matches Ok(p) ==> pos <= p,
{
    if vtype == GGUF_TYPE_ARRAY && pos + 12 <= b.len() {
        lemma_strings_move_forward(b, pos + 12, le_u64(b, pos + 4));
    }
}

proof fn lemma_tensors_extend(b: Seq<u8>, ext: Seq<u8>, pos: int, remaining: nat, names: Seq<Seq<char>>)
    requires
        0 <= pos,
        settled(tensor_block(b, pos, remaining, names)),
    ensures
        tensor_block(b + ext, pos, remaining, names) == tensor_block(b, pos, remaining, names),
    decreases remaining,
{
    if remaining > 0 {
        lemma_text_extends(b, ext, pos);
        match text_at(b, pos) {
            Ok((name, p1)) => {
                if p1 + 4 <= b.len() {
                    lemma_ints_extend(b, ext, p1);
                    let nd = le_u32(b, p1);
                    if nd <= GGUF_MAX_NDIMS && p1 + 4 + nd * 8 + 12 <= b.len() {
                        lemma_tensors_extend(b, ext, p1 + 4 + nd * 8 + 12, (remaining - 1) as nat, names.push(name));
                    }
                }
            },
            Err(_) => {},
        }
    }
}

/// Reading a GGUF header from more of the file never changes an answer that
/// the shorter read reached without running out of bytes: the header is read
/// front to back and looks at nothing past where it ends.
pub proof fn longer_reads_keep_a_settled_header(b: Seq<u8>, ext: Seq<u8>)
    requires
        settled(header_spec(b)),
    ensures
        header_spec(b + ext) == header_spec(b),
{
    lemma_ints_extend(b, ext, 0);
    lemma_ints_extend(b, ext, 8);
    lemma_ints_extend(b, ext, 16);
    if b.len() >= 24 && le_u32(b, 0) == GGUF_MAGIC && le_u64(b, 8) <= GGUF_MAX_TENSOR_COUNT
        && le_u64(b, 16) <= GGUF_MAX_KV_COUNT {
        lemma_kv_extends(b, ext, 24, le_u64(b, 16), None);
        match kv_block(b, 24, le_u64(b, 16), None) {
            Ok((arch, p)) => lemma_tensors_extend(b, ext, p, le_u64(b, 8), Seq::<Seq<char>>::empty()),
            Err(_) => {},
        }
    }
}

} // verus!
