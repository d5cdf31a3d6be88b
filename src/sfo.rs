//! The PARAM.SFO metadata blobs of PS3 games: a header, an index of entries,
//! a table of null-terminated keys and a table of values.

use vstd::prelude::*;
use vstd::utf8::{decode_utf8, valid_utf8};

verus! {

/// The 16-bit little-endian integer at `offset`.
pub fn read_u16_le(data: &[u8], offset: usize) -> (r: u16)
    requires
        offset + 1 < data@.len(),
    ensures
        r == data@[offset as int] + 256 * data@[offset + 1],
{
    let lo = data[offset] as u16;
    let hi = data[offset + 1] as u16;
    lo + hi * 256
}

/// The 32-bit little-endian integer at `offset`.
pub fn read_u32_le(data: &[u8], offset: usize) -> (r: u32)
    requires
        offset + 3 < data@.len(),
    ensures
        r == data@[offset as int] + 256 * data@[offset + 1] + 65536 * data@[offset + 2] + 16777216
            * data@[offset + 3],
{
    let b0 = data[offset] as u32;
    let b1 = data[offset + 1] as u32;
    let b2 = data[offset + 2] as u32;
    let b3 = data[offset + 3] as u32;
    b0 + b1 * 256 + b2 * 65536 + b3 * 16777216
}

/// The game information read from PARAM.SFO.
#[derive(Debug, Clone)]
pub struct Ps3GameInfo {
    pub title: Option<String>,
    pub title_id: Option<String>,
    pub version: Option<String>,
    pub app_ver: Option<String>,
    pub category: Option<String>,
}

/// Why a PARAM.SFO blob could not be read.
#[derive(Debug, Clone, Copy, PartialEq, Eq, Structural)]
pub enum SfoError {
    /// Shorter than the 20-byte header.
    TooSmall,
    /// The header does not start with the `\0PSF` magic number.
    BadMagic,
    /// An index entry lies past the end.
    IndexOutOfBounds,
    /// An index entry has an unknown data type.
    UnknownDataType(u16),
    /// A key runs to the end without a null byte.
    NotTerminated,
    /// A key or a text value is not UTF-8.
    InvalidUtf8,
    /// A value lies past the end.
    DataOutOfBounds,
}

/// The data types of SFO values.
#[derive(Debug, Clone, Copy, PartialEq, Eq, Structural)]
pub enum SfoDataType {
    Utf8,
    Utf8Special,
    Int32,
}

/// The magic number that starts every PARAM.SFO blob.
pub const SFO_MAGIC: u32 = 0x46535000;

pub open spec fn u16_at(b: Seq<u8>, o: int) -> int {
    b[o] + 256 * b[o + 1]
}

pub open spec fn u32_at(b: Seq<u8>, o: int) -> int {
    b[o] + 256 * b[o + 1] + 65536 * b[o + 2] + 16777216 * b[o + 3]
}

pub open spec fn data_type_of(v: u16) -> Option<SfoDataType> {
    if v == 0x0004 {
        Some(SfoDataType::Utf8)
    } else if v == 0x0204 {
        Some(SfoDataType::Utf8Special)
    } else if v == 0x0404 {
        Some(SfoDataType::Int32)
    } else {
        None
    }
}

impl SfoDataType {
    pub fn from_u16(value: u16) -> (r: Option<SfoDataType>)
        ensures
            r == data_type_of(value),
    {
        if value == 0x0004 {
            Some(SfoDataType::Utf8)
        } else if value == 0x0204 {
            Some(SfoDataType::Utf8Special)
        } else if value == 0x0404 {
            Some(SfoDataType::Int32)
        } else {
            None
        }
    }
}

/// The first position from `k` on where `b` holds a null byte, below `end`.
pub open spec fn first_zero(b: Seq<u8>, k: int, end: int) -> int
    decreases end - k,
{
    if k >= end || k < 0 {
        k
    } else if b[k] == 0 {
        k
    } else {
        first_zero(b, k + 1, end)
    }
}

/// The null-terminated string at `start`.
pub open spec fn key_at(b: Seq<u8>, start: int) -> Result<Seq<char>, SfoError> {
    let end = first_zero(b, start, b.len() as int);
    if end >= b.len() {
        Err(SfoError::NotTerminated)
    } else if !valid_utf8(b.subrange(start, end)) {
        Err(SfoError::InvalidUtf8)
    } else {
        Ok(decode_utf8(b.subrange(start, end)))
    }
}

/// The text value of `length` bytes at `start`, up to its first null byte.
pub open spec fn text_at(b: Seq<u8>, start: int, length: int) -> Result<Seq<char>, SfoError> {
    if start + length > b.len() {
        Err(SfoError::DataOutOfBounds)
    } else {
        let end = first_zero(b, start, start + length);
        if !valid_utf8(b.subrange(start, end)) {
            Err(SfoError::InvalidUtf8)
        } else {
            Ok(decode_utf8(b.subrange(start, end)))
        }
    }
}

/// The game information that the index entries from `i` on add to `info`
/// (title, title id, version, application version and category, by key).
pub struct SfoInfoView {
    pub title: Option<Seq<char>>,
    pub title_id: Option<Seq<char>>,
    pub version: Option<Seq<char>>,
    pub app_ver: Option<Seq<char>>,
    pub category: Option<Seq<char>>,
}

pub open spec fn info_view(i: Ps3GameInfo) -> SfoInfoView {
    SfoInfoView {
        title: crate::types::opt_str(i.title),
        title_id: crate::types::opt_str(i.title_id),
        version: crate::types::opt_str(i.version),
        app_ver: crate::types::opt_str(i.app_ver),
        category: crate::types::opt_str(i.category),
    }
}

/// `info` with the text value `v` stored under `key`, where the key is known.
pub open spec fn store(info: SfoInfoView, key: Seq<char>, v: Seq<char>) -> SfoInfoView {
    if key == "TITLE"@ {
        SfoInfoView { title: Some(v), ..info }
    } else if key == "TITLE_ID"@ {
        SfoInfoView { title_id: Some(v), ..info }
    } else if key == "VERSION"@ {
        SfoInfoView { version: Some(v), ..info }
    } else if key == "APP_VER"@ {
        SfoInfoView { app_ver: Some(v), ..info }
    } else if key == "CATEGORY"@ {
        SfoInfoView { category: Some(v), ..info }
    } else {
        info
    }
}

/// The index entry `i` applied to `info`.
pub open spec fn apply_entry(b: Seq<u8>, i: int, info: SfoInfoView) -> Result<SfoInfoView, SfoError> {
    let o = 20 + 16 * i;
    if o + 16 > b.len() {
        Err(SfoError::IndexOutOfBounds)
    } else {
        match data_type_of(u16_at(b, o + 2) as u16) {
            None => Err(SfoError::UnknownDataType(u16_at(b, o + 2) as u16)),
            Some(t) => match key_at(b, u32_at(b, 8) + u16_at(b, o)) {
                Err(e) => Err(e),
                Ok(key) => if t == SfoDataType::Int32 {
                    Ok(info)
                } else {
                    match text_at(b, u32_at(b, 12) + u32_at(b, o + 12), u32_at(b, o + 4)) {
                        Err(e) => Err(e),
                        Ok(v) => Ok(store(info, key, v)),
                    }
                },
            },
        }
    }
}

pub open spec fn empty_info() -> SfoInfoView {
    SfoInfoView { title: None, title_id: None, version: None, app_ver: None, category: None }
}

/// The information that the first `n` index entries give; the first error stops.
pub open spec fn apply_entries(b: Seq<u8>, n: nat) -> Result<SfoInfoView, SfoError>
    decreases n,
{
    if n == 0 {
        Ok(empty_info())
    } else {
        match apply_entries(b, (n - 1) as nat) {
            Err(e) => Err(e),
            Ok(info) => apply_entry(b, n - 1, info),
        }
    }
}

/// The game information of a PARAM.SFO blob.
pub open spec fn sfo_info(b: Seq<u8>) -> Result<SfoInfoView, SfoError> {
    if b.len() < 20 {
        Err(SfoError::TooSmall)
    } else if u32_at(b, 0) != SFO_MAGIC {
        Err(SfoError::BadMagic)
    } else {
        apply_entries(b, u32_at(b, 16) as nat)
    }
}

proof fn lemma_error_stays(b: Seq<u8>, k: nat, n: nat, e: SfoError)
    requires
        k <= n,
        apply_entries(b, k) == Err::<SfoInfoView, SfoError>(e),
    ensures
        apply_entries(b, n) == Err::<SfoInfoView, SfoError>(e),
    decreases n - k,
{
    if k < n {
        lemma_error_stays(b, k, (n - 1) as nat, e);
    }
}

fn scan_zero(b: &[u8], start: usize, end: usize) -> (r: usize)
    requires
        end <= b@.len(),
    ensures
        r == first_zero(b@, start as int, end as int),
{
    let mut k = start;
    while k < end && b[k] != 0
        invariant
            end <= b@.len(),
            start <= k,
            first_zero(b@, start as int, end as int) == first_zero(b@, k as int, end as int),
        decreases end - k,
    {
        k = k + 1;
    }
    k
}

proof fn lemma_first_zero(b: Seq<u8>, k: int, end: int)
    requires
        0 <= k,
    ensures
        k <= first_zero(b, k, end),
        k <= end ==> first_zero(b, k, end) <= end,
    decreases end - k,
{
    if k < end && b[k] != 0 {
        lemma_first_zero(b, k + 1, end);
    }
}

fn text_of(b: &[u8], start: usize, end: usize) -> (r: Result<String, SfoError>)
    requires
        start <= end <= b@.len(),
    ensures
        match r {
            Ok(s) => valid_utf8(b@.subrange(start as int, end as int)) && s@ == decode_utf8(
                b@.subrange(start as int, end as int),
            ),
            Err(e) => e == SfoError::InvalidUtf8 && !valid_utf8(b@.subrange(start as int, end as int)),
        },
{
    let part = vstd::slice::slice_subrange(b, start, end);
    match crate::decode::utf8_text(part) {
        Some(s) => Ok(s),
        None => Err(SfoError::InvalidUtf8),
    }
}

fn read_null_terminated_string(b: &[u8], start: usize) -> (r: Result<String, SfoError>)
    ensures
        match r {
            Ok(s) => key_at(b@, start as int) == Ok::<Seq<char>, SfoError>(s@),
            Err(e) => key_at(b@, start as int) == Err::<Seq<char>, SfoError>(e),
        },
{
    let end = scan_zero(b, start, b.len());
    proof {
        lemma_first_zero(b@, start as int, b@.len() as int);
    }
    if end >= b.len() {
        return Err(SfoError::NotTerminated);
    }
    text_of(b, start, end)
}

fn read_string(b: &[u8], start: u64, length: u64) -> (r: Result<String, SfoError>)
    requires
        start + length <= u64::MAX,
    ensures
        match r {
            Ok(s) => text_at(b@, start as int, length as int) == Ok::<Seq<char>, SfoError>(s@),
            Err(e) => text_at(b@, start as int, length as int) == Err::<Seq<char>, SfoError>(e),
        },
{
    if start + length > b.len() as u64 {
        return Err(SfoError::DataOutOfBounds);
    }
    let s = start as usize;
    let e = (start + length) as usize;
    let end = scan_zero(b, s, e);
    proof {
        lemma_first_zero(b@, s as int, e as int);
    }
    text_of(b, s, end)
}

fn store_exec(info: &mut Ps3GameInfo, key: &String, v: String)
    ensures
        info_view(*final(info)) == store(info_view(*old(info)), key@, v@),
{
    let k = crate::text::chars_of(key.as_str());
    if crate::text::chars_eq_str(&k, "TITLE") {
        info.title = Some(v);
    } else if crate::text::chars_eq_str(&k, "TITLE_ID") {
        info.title_id = Some(v);
    } else if crate::text::chars_eq_str(&k, "VERSION") {
        info.version = Some(v);
    } else if crate::text::chars_eq_str(&k, "APP_VER") {
        info.app_ver = Some(v);
    } else if crate::text::chars_eq_str(&k, "CATEGORY") {
        info.category = Some(v);
    }
}

/// Applies index entry `i` to `info`.
fn apply_entry_exec(b: &[u8], i: u32, info: &mut Ps3GameInfo) -> (r: Result<(), SfoError>)
    requires
        b@.len() >= 20,
    ensures
        match r {
            Ok(_) => apply_entry(b@, i as int, info_view(*old(info))) == Ok::<SfoInfoView, SfoError>(
                info_view(*final(info)),
            ),
            Err(e) => apply_entry(b@, i as int, info_view(*old(info))) == Err::<SfoInfoView, SfoError>(e),
        },
{
    let o: u64 = 20 + 16 * (i as u64);
    if o + 16 > b.len() as u64 {
        return Err(SfoError::IndexOutOfBounds);
    }
    let o = o as usize;
    let key_table = read_u32_le(b, 8) as u64;
    let data_table = read_u32_le(b, 12) as u64;
    let key_offset = read_u16_le(b, o) as u64;
    let raw_type = read_u16_le(b, o + 2);
    let length = read_u32_le(b, o + 4) as u64;
    let data_offset = read_u32_le(b, o + 12) as u64;
    let t = match SfoDataType::from_u16(raw_type) {
        Some(t) => t,
        None => {
            return Err(SfoError::UnknownDataType(raw_type));
        },
    };
    let key_start = key_table + key_offset;
    if key_start >= b.len() as u64 {
        proof {
            lemma_first_zero(b@, key_start as int, b@.len() as int);
        }
        return Err(SfoError::NotTerminated);
    }
    let key = match read_null_terminated_string(b, key_start as usize) {
        Ok(k) => k,
        Err(e) => {
            return Err(e);
        },
    };
    match t {
        SfoDataType::Int32 => Ok(()),
        _ => match read_string(b, data_table + data_offset, length) {
            Ok(v) => {
                store_exec(info, &key, v);
                Ok(())
            },
            Err(e) => Err(e),
        },
    }
}

/// Reads the game information of a PARAM.SFO blob: its title, title id,
/// version, application version and category, where present.
pub fn parse_param_sfo_from_bytes(b: &[u8]) -> (r: Result<Ps3GameInfo, SfoError>)
    ensures
        match r {
            Ok(info) => sfo_info(b@) == Ok::<SfoInfoView, SfoError>(info_view(info)),
            Err(e) => sfo_info(b@) == Err::<SfoInfoView, SfoError>(e),
        },
{
    if b.len() < 20 {
        return Err(SfoError::TooSmall);
    }
    if read_u32_le(b, 0) != SFO_MAGIC {
        return Err(SfoError::BadMagic);
    }
    let count = read_u32_le(b, 16);
    let mut info = Ps3GameInfo { title: None, title_id: None, version: None, app_ver: None, category: None };
    let mut i: u32 = 0;
    while i < count
        invariant
            b@.len() >= 20,
            u32_at(b@, 0) == SFO_MAGIC,
            count == u32_at(b@, 16),
            i <= count,
            apply_entries(b@, i as nat) == Ok::<SfoInfoView, SfoError>(info_view(info)),
        decreases count - i,
    {
        let ghost before = info_view(info);
        let res = apply_entry_exec(b, i, &mut info);
        proof {
            assert(apply_entries(b@, (i + 1) as nat) == apply_entry(b@, i as int, before));
        }
        match res {
            Ok(_) => {},
            Err(e) => {
                proof {
                    assert(apply_entries(b@, (i + 1) as nat) == Err::<SfoInfoView, SfoError>(e));
                    lemma_error_stays(b@, (i + 1) as nat, count as nat, e);
                }
                return Err(e);
            },
        }
        i = i + 1;
    }
    Ok(info)
}

} // verus!
