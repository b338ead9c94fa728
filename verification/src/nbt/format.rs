//! The NBT byte format as mathematics: what a reader makes of bytes, what a
//! writer makes of values, and which values survive the trip.

use super::model::TagModel;
use super::NbtError;
use crate::bytes::{be_bytes_u16, be_bytes_u32, be_bytes_u64, be_u16, be_u32, be_u64};
use crate::text::utf8_text;
use vstd::prelude::*;
use vstd::utf8::encode_utf8;

verus! {

/// Deepest nesting level the reader accepts (the outermost value is at 0).
pub const MAX_NBT_DEPTH: u32 = 512;

/// Most elements an array or list may announce.
pub const MAX_ARRAY_LEN: i32 = 16777216;

/// Most entries a compound may hold.
pub const MAX_COMPOUND_ENTRIES: usize = 65536;

/// The type id the format gives each kind of value.
pub open spec fn tag_id(m: TagModel) -> u8 {
    match m {
        TagModel::End => 0,
        TagModel::Byte(_) => 1,
        TagModel::Short(_) => 2,
        TagModel::Int(_) => 3,
        TagModel::Long(_) => 4,
        TagModel::Float(_) => 5,
        TagModel::Double(_) => 6,
        TagModel::ByteArray(_) => 7,
        TagModel::Str(_) => 8,
        TagModel::List(_) => 9,
        TagModel::Compound(_) => 10,
        TagModel::IntArray(_) => 11,
        TagModel::LongArray(_) => 12,
    }
}

/// An announced array length, accepted when it is in `[0, MAX_ARRAY_LEN]`.
pub open spec fn spec_sanitize_array_len(len: i32) -> Result<usize, NbtError> {
    if len < 0 {
        Err(NbtError::NegativeArrayLength(len))
    } else if len > MAX_ARRAY_LEN {
        Err(NbtError::ArrayTooLong(len))
    } else {
        Ok(len as usize)
    }
}

/// Reading a string at `pos`: a big-endian `i16` length, then up to that
/// many bytes (fewer when the input ends first), decoded as UTF-8.
pub open spec fn spec_read_string(s: Seq<u8>, pos: int) -> Result<(Seq<char>, int), NbtError> {
    if pos + 2 > s.len() {
        Err(NbtError::UnexpectedEof)
    } else {
        let len = be_u16(s, pos) as i16;
        if len < 0 {
            Err(NbtError::NegativeStringLength(len))
        } else {
            let start = pos + 2;
            let n = if start + len <= s.len() {
                len as int
            } else {
                s.len() - start
            };
            Ok((utf8_text(s.subrange(start, start + n)), start + n))
        }
    }
}

/// The position of the first entry named `name`, looking from `from` on;
/// `-1` when there is none.
pub open spec fn find_name(es: Seq<(Seq<char>, TagModel)>, name: Seq<char>, from: nat) -> int
    decreases es.len() - from,
{
    if from >= es.len() {
        -1
    } else if es[from as int].0 == name {
        from as int
    } else {
        find_name(es, name, from + 1)
    }
}

/// Placing `v` under `name` in a compound: replaces the entry of that name,
/// or appends one.
pub open spec fn compound_put(
    es: Seq<(Seq<char>, TagModel)>,
    name: Seq<char>,
    v: TagModel,
) -> Seq<(Seq<char>, TagModel)> {
    let i = find_name(es, name, 0);
    if i >= 0 {
        es.update(i, (name, v))
    } else {
        es.push((name, v))
    }
}

/// The value a compound holds under `name`.
pub open spec fn compound_get(es: Seq<(Seq<char>, TagModel)>, name: Seq<char>) -> Option<
    TagModel,
> {
    let i = find_name(es, name, 0);
    if i >= 0 {
        Some(es[i].1)
    } else {
        None
    }
}

/// Reading the payload of a value of type `id` at `pos`, nested at `depth`:
/// the value and the position after it.
pub open spec fn spec_read_tag(id: u8, s: Seq<u8>, pos: int, depth: int) -> Result<
    (TagModel, int),
    NbtError,
>
    decreases 513 - depth, 1int, 0int,
{
    if depth > MAX_NBT_DEPTH {
        Err(NbtError::DepthExceeded)
    } else if id == 0 {
        Err(NbtError::UnexpectedEnd)
    } else if id == 1 {
        if pos + 1 > s.len() {
            Err(NbtError::UnexpectedEof)
        } else {
            Ok((TagModel::Byte(s[pos] as i8), pos + 1))
        }
    } else if id == 2 {
        if pos + 2 > s.len() {
            Err(NbtError::UnexpectedEof)
        } else {
            Ok((TagModel::Short(be_u16(s, pos) as i16), pos + 2))
        }
    } else if id == 3 {
        if pos + 4 > s.len() {
            Err(NbtError::UnexpectedEof)
        } else {
            Ok((TagModel::Int(be_u32(s, pos) as i32), pos + 4))
        }
    } else if id == 4 {
        if pos + 8 > s.len() {
            Err(NbtError::UnexpectedEof)
        } else {
            Ok((TagModel::Long(be_u64(s, pos) as i64), pos + 8))
        }
    } else if id == 5 {
        if pos + 4 > s.len() {
            Err(NbtError::UnexpectedEof)
        } else {
            Ok((TagModel::Float(be_u32(s, pos)), pos + 4))
        }
    } else if id == 6 {
        if pos + 8 > s.len() {
            Err(NbtError::UnexpectedEof)
        } else {
            Ok((TagModel::Double(be_u64(s, pos)), pos + 8))
        }
    } else if id == 7 {
        if pos + 4 > s.len() {
            Err(NbtError::UnexpectedEof)
        } else {
            match spec_sanitize_array_len(be_u32(s, pos) as i32) {
                Err(e) => Err(e),
                Ok(len) => {
                    let start = pos + 4;
                    let n = if start + len <= s.len() {
                        len as int
                    } else {
                        s.len() - start
                    };
                    Ok((TagModel::ByteArray(s.subrange(start, start + n)), start + n))
                },
            }
        }
    } else if id == 8 {
        match spec_read_string(s, pos) {
            Err(e) => Err(e),
            Ok((text, end)) => Ok((TagModel::Str(text), end)),
        }
    } else if id == 9 {
        if pos + 5 > s.len() {
            Err(NbtError::UnexpectedEof)
        } else {
            match spec_sanitize_array_len(be_u32(s, pos + 1) as i32) {
                Err(e) => Err(e),
                Ok(len) => match spec_read_list(s[pos], s, pos + 5, depth + 1, len as int, seq![]) {
                    Err(e) => Err(e),
                    Ok((items, end)) => Ok((TagModel::List(items), end)),
                },
            }
        }
    } else if id == 10 {
        match spec_read_entries(s, pos, depth + 1, 0, seq![]) {
            Err(e) => Err(e),
            Ok((es, end)) => Ok((TagModel::Compound(es), end)),
        }
    } else if id == 11 {
        if pos + 4 > s.len() {
            Err(NbtError::UnexpectedEof)
        } else {
            match spec_sanitize_array_len(be_u32(s, pos) as i32) {
                Err(e) => Err(e),
                Ok(len) => {
                    let start = pos + 4;
                    if start + 4 * len > s.len() {
                        Err(NbtError::UnexpectedEof)
                    } else {
                        Ok(
                            (
                                TagModel::IntArray(
                                    Seq::new(len as nat, |i: int| be_u32(s, start + 4 * i) as i32),
                                ),
                                start + 4 * len,
                            ),
                        )
                    }
                },
            }
        }
    } else if id == 12 {
        if pos + 4 > s.len() {
            Err(NbtError::UnexpectedEof)
        } else {
            match spec_sanitize_array_len(be_u32(s, pos) as i32) {
                Err(e) => Err(e),
                Ok(len) => {
                    let start = pos + 4;
                    if start + 8 * len > s.len() {
                        Err(NbtError::UnexpectedEof)
                    } else {
                        Ok(
                            (
                                TagModel::LongArray(
                                    Seq::new(len as nat, |i: int| be_u64(s, start + 8 * i) as i64),
                                ),
                                start + 8 * len,
                            ),
                        )
                    }
                },
            }
        }
    } else {
        Err(NbtError::InvalidTagId(id))
    }
}

/// Reading `n` more list elements of type `ty` at `pos`, after the elements
/// `acc` already read.
pub open spec fn spec_read_list(
    ty: u8,
    s: Seq<u8>,
    pos: int,
    depth: int,
    n: int,
    acc: Seq<TagModel>,
) -> Result<(Seq<TagModel>, int), NbtError>
    decreases 514 - depth, 0int, n,
{
    if n <= 0 {
        Ok((acc, pos))
    } else if depth > MAX_NBT_DEPTH {
        Err(NbtError::DepthExceeded)
    } else {
        match spec_read_tag(ty, s, pos, depth) {
            Err(e) => Err(e),
            Ok((t, p)) => spec_read_list(ty, s, p, depth, n - 1, acc.push(t)),
        }
    }
}

/// Reading the remaining entries of a compound at `pos` up to its end
/// marker, after `count` entries already read and merged into `acc`.
pub open spec fn spec_read_entries(
    s: Seq<u8>,
    pos: int,
    depth: int,
    count: int,
    acc: Seq<(Seq<char>, TagModel)>,
) -> Result<(Seq<(Seq<char>, TagModel)>, int), NbtError>
    decreases 514 - depth, 0int, 65537 - count,
{
    if pos + 1 > s.len() {
        Err(NbtError::UnexpectedEof)
    } else if s[pos] == 0 {
        Ok((acc, pos + 1))
    } else if count + 1 > MAX_COMPOUND_ENTRIES {
        Err(NbtError::TooManyEntries)
    } else {
        match spec_read_string(s, pos + 1) {
            Err(e) => Err(e),
            Ok((name, p1)) => if depth > MAX_NBT_DEPTH {
                Err(NbtError::DepthExceeded)
            } else {
                match spec_read_tag(s[pos], s, p1, depth) {
                    Err(e) => Err(e),
                    Ok((v, p2)) => spec_read_entries(
                        s,
                        p2,
                        depth,
                        count + 1,
                        compound_put(acc, name, v),
                    ),
                }
            },
        }
    }
}

/// The bytes of a string: its UTF-8 length as a big-endian `i16`, then its
/// UTF-8 encoding.
pub open spec fn spec_string_bytes(text: Seq<char>) -> Seq<u8> {
    let b = encode_utf8(text);
    be_bytes_u16(b.len() as i16 as u16) + b
}

/// The bytes of a sequence of `i32`s, each big-endian.
pub open spec fn spec_ints_bytes(v: Seq<i32>) -> Seq<u8>
    decreases v.len(),
{
    if v.len() == 0 {
        Seq::empty()
    } else {
        be_bytes_u32(v[0] as u32) + spec_ints_bytes(v.subrange(1, v.len() as int))
    }
}

/// The bytes of a sequence of `i64`s, each big-endian.
pub open spec fn spec_longs_bytes(v: Seq<i64>) -> Seq<u8>
    decreases v.len(),
{
    if v.len() == 0 {
        Seq::empty()
    } else {
        be_bytes_u64(v[0] as u64) + spec_longs_bytes(v.subrange(1, v.len() as int))
    }
}

/// The payload bytes the writer produces for a value.
pub open spec fn spec_write_tag(m: TagModel) -> Seq<u8>
    decreases m,
{
    match m {
        TagModel::End => Seq::empty(),
        TagModel::Byte(v) => seq![v as u8],
        TagModel::Short(v) => be_bytes_u16(v as u16),
        TagModel::Int(v) => be_bytes_u32(v as u32),
        TagModel::Long(v) => be_bytes_u64(v as u64),
        TagModel::Float(v) => be_bytes_u32(v),
        TagModel::Double(v) => be_bytes_u64(v),
        TagModel::ByteArray(b) => be_bytes_u32(b.len() as i32 as u32) + b,
        TagModel::Str(text) => spec_string_bytes(text),
        TagModel::List(items) => if items.len() == 0 {
            seq![0u8] + be_bytes_u32(0)
        } else {
            seq![tag_id(items[0])] + be_bytes_u32(items.len() as i32 as u32) + spec_write_list(
                items,
            )
        },
        TagModel::Compound(es) => spec_write_entries(es) + seq![0u8],
        TagModel::IntArray(v) => be_bytes_u32(v.len() as i32 as u32) + spec_ints_bytes(v),
        TagModel::LongArray(v) => be_bytes_u32(v.len() as i32 as u32) + spec_longs_bytes(v),
    }
}

/// The payloads of list elements, one after the other.
pub open spec fn spec_write_list(items: Seq<TagModel>) -> Seq<u8>
    decreases items,
{
    if items.len() == 0 {
        Seq::empty()
    } else {
        spec_write_tag(items[0]) + spec_write_list(items.subrange(1, items.len() as int))
    }
}

/// Compound entries, each as type id, name and payload.
pub open spec fn spec_write_entries(es: Seq<(Seq<char>, TagModel)>) -> Seq<u8>
    decreases es,
{
    if es.len() == 0 {
        Seq::empty()
    } else {
        seq![tag_id(es[0].1)] + spec_string_bytes(es[0].0) + spec_write_tag(es[0].1)
            + spec_write_entries(es.subrange(1, es.len() as int))
    }
}

/// No two entries share a name.
pub open spec fn names_distinct(es: Seq<(Seq<char>, TagModel)>) -> bool {
    forall|i: int, j: int| 0 <= i < j < es.len() ==> es[i].0 != es[j].0
}

/// A value the format can carry at nesting level `depth`: no end marker
/// stands as a value, lengths fit the reader's limits, list elements share
/// one type, and compound names are distinct.
pub open spec fn well_formed(m: TagModel, depth: int) -> bool
    decreases m,
{
    &&& depth <= MAX_NBT_DEPTH
    &&& match m {
        TagModel::End => false,
        TagModel::ByteArray(b) => b.len() <= MAX_ARRAY_LEN,
        TagModel::Str(text) => encode_utf8(text).len() <= 0x7fff,
        TagModel::List(items) => items.len() <= MAX_ARRAY_LEN && (items.len() == 0
            || list_well_formed(items, tag_id(items[0]), depth + 1)),
        TagModel::Compound(es) => es.len() <= MAX_COMPOUND_ENTRIES && names_distinct(es)
            && entries_well_formed(es, depth + 1),
        TagModel::IntArray(v) => v.len() <= MAX_ARRAY_LEN,
        TagModel::LongArray(v) => v.len() <= MAX_ARRAY_LEN,
        _ => true,
    }
}

/// Every element has type `id` and is well formed at `depth`.
pub open spec fn list_well_formed(items: Seq<TagModel>, id: u8, depth: int) -> bool
    decreases items,
{
    items.len() == 0 || (tag_id(items[0]) == id && well_formed(items[0], depth)
        && list_well_formed(items.subrange(1, items.len() as int), id, depth))
}

/// Every entry has a name the format can carry and a value well formed at
/// `depth`.
pub open spec fn entries_well_formed(es: Seq<(Seq<char>, TagModel)>, depth: int) -> bool
    decreases es,
{
    es.len() == 0 || (encode_utf8(es[0].0).len() <= 0x7fff && well_formed(es[0].1, depth)
        && entries_well_formed(es.subrange(1, es.len() as int), depth))
}

} // verus!
