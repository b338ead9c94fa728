//! The NBT reader: bytes to values.

use super::format::{
    compound_put, find_name, spec_read_entries, spec_read_list, spec_read_string, spec_read_tag,
    spec_sanitize_array_len, MAX_ARRAY_LEN, MAX_COMPOUND_ENTRIES, MAX_NBT_DEPTH,
};
use super::model::{
    entries_model, lemma_entries_model, lemma_tags_model, lemma_tags_model_push, tags_model,
    TagModel,
};
use super::{NamedTag, NbtError, Tag};
use crate::bytes::{read_be_u16, read_be_u32, read_be_u64};
use crate::text::text_from_bytes;
use vstd::prelude::*;

verus! {

/// The bytes `buf[start..end]`.
pub fn copy_range(buf: &[u8], start: usize, end: usize) -> (v: Vec<u8>)
    requires
        start <= end <= buf@.len(),
    ensures
        v@ == buf@.subrange(start as int, end as int),
{
    let mut v: Vec<u8> = Vec::new();
    let mut i = start;
    while i < end
        invariant
            start <= i <= end <= buf@.len(),
            v@ == buf@.subrange(start as int, i as int),
        decreases end - i,
    {
        v.push(buf[i]);
        i = i + 1;
        assert(v@ =~= buf@.subrange(start as int, i as int));
    }
    v
}

/// Checks an announced array length: accepted when it lies in
/// `[0, MAX_ARRAY_LEN]`, so that no malformed input can make the reader
/// allocate without bound.
pub fn sanitize_array_len(len: i32) -> (r: Result<usize, NbtError>)
    ensures
        r == spec_sanitize_array_len(len),
{
    if len < 0 {
        Err(NbtError::NegativeArrayLength(len))
    } else if len > MAX_ARRAY_LEN {
        Err(NbtError::ArrayTooLong(len))
    } else {
        Ok(len as usize)
    }
}

/// Reads a string at `pos`: a big-endian `i16` length, then up to that many
/// bytes (fewer when the input ends first), decoded as UTF-8 with invalid
/// sequences replaced. Returns the text and the position after it.
pub fn read_string(buf: &[u8], pos: usize) -> (res: Result<(String, usize), NbtError>)
    requires
        pos <= buf@.len(),
    ensures
        match res {
            Ok((s, p)) => spec_read_string(buf@, pos as int) == Ok::<(Seq<char>, int), NbtError>(
                (s@, p as int),
            ) && pos <= p <= buf@.len(),
            Err(e) => spec_read_string(buf@, pos as int) == Err::<(Seq<char>, int), NbtError>(e),
        },
{
    if buf.len() - pos < 2 {
        return Err(NbtError::UnexpectedEof);
    }
    let len = read_be_u16(buf, pos) as i16;
    if len < 0 {
        return Err(NbtError::NegativeStringLength(len));
    }
    let start = pos + 2;
    let avail = buf.len() - start;
    let n = if (len as usize) <= avail {
        len as usize
    } else {
        avail
    };
    let bytes = copy_range(buf, start, start + n);
    Ok((text_from_bytes(bytes), start + n))
}

/// Places `value` under `name`: replaces the entry of that name, or appends
/// one.
pub fn put_entry(entries: &mut Vec<NamedTag>, name: String, value: Tag)
    ensures
        entries_model(final(entries)@) == compound_put(
            entries_model(old(entries)@),
            name@,
            value@,
        ),
{
    let ghost m = entries_model(entries@);
    proof {
        lemma_entries_model(entries@);
    }
    let mut i: usize = 0;
    while i < entries.len()
        invariant
            i <= entries@.len(),
            entries@ == old(entries)@,
            m == entries_model(entries@),
            m.len() == entries@.len(),
            forall|k: int| 0 <= k < entries@.len() ==> #[trigger] m[k] == (
            entries@[k].0@,
            entries@[k].1@,
            ),
            find_name(m, name@, 0) == find_name(m, name@, i as nat),
        decreases entries@.len() - i,
    {
        if entries[i].0 == name {
            let ghost nm = name@;
            let ghost vm = value@;
            entries[i] = NamedTag(name, value);
            proof {
                lemma_entries_model(entries@);
                assert(entries_model(entries@) =~= m.update(i as int, (nm, vm)));
            }
            return;
        }
        i = i + 1;
    }
    let ghost nm = name@;
    let ghost vm = value@;
    entries.push(NamedTag(name, value));
    proof {
        lemma_entries_model(entries@);
        assert(entries_model(entries@) =~= m.push((nm, vm)));
    }
}

/// Reads the payload of a value of type `id` at `pos`, nested at `depth`.
/// Returns the value and the position after it; fails as `spec_read_tag`
/// says, in particular beyond `MAX_NBT_DEPTH` levels of nesting.
#[verifier::loop_isolation(false)]
pub fn read_type_depth(id: u8, buf: &[u8], pos: usize, depth: u32) -> (res: Result<
    (Tag, usize),
    NbtError,
>)
    requires
        pos <= buf@.len(),
    ensures
        match res {
            Ok((t, p)) => spec_read_tag(id, buf@, pos as int, depth as int) == Ok::<
                (TagModel, int),
                NbtError,
            >((t@, p as int)) && pos <= p <= buf@.len(),
            Err(e) => spec_read_tag(id, buf@, pos as int, depth as int) == Err::<
                (TagModel, int),
                NbtError,
            >(e),
        },
    decreases 513 - depth,
{
    if depth > MAX_NBT_DEPTH {
        return Err(NbtError::DepthExceeded);
    }
    let avail = buf.len() - pos;
    if id == 0 {
        Err(NbtError::UnexpectedEnd)
    } else if id == 1 {
        if avail < 1 {
            Err(NbtError::UnexpectedEof)
        } else {
            Ok((Tag::Byte(buf[pos] as i8), pos + 1))
        }
    } else if id == 2 {
        if avail < 2 {
            Err(NbtError::UnexpectedEof)
        } else {
            Ok((Tag::Short(read_be_u16(buf, pos) as i16), pos + 2))
        }
    } else if id == 3 {
        if avail < 4 {
            Err(NbtError::UnexpectedEof)
        } else {
            Ok((Tag::Int(read_be_u32(buf, pos) as i32), pos + 4))
        }
    } else if id == 4 {
        if avail < 8 {
            Err(NbtError::UnexpectedEof)
        } else {
            Ok((Tag::Long(read_be_u64(buf, pos) as i64), pos + 8))
        }
    } else if id == 5 {
        if avail < 4 {
            Err(NbtError::UnexpectedEof)
        } else {
            Ok((Tag::Float(read_be_u32(buf, pos)), pos + 4))
        }
    } else if id == 6 {
        if avail < 8 {
            Err(NbtError::UnexpectedEof)
        } else {
            Ok((Tag::Double(read_be_u64(buf, pos)), pos + 8))
        }
    } else if id == 7 {
        if avail < 4 {
            return Err(NbtError::UnexpectedEof);
        }
        let len = match sanitize_array_len(read_be_u32(buf, pos) as i32) {
            Ok(n) => n,
            Err(e) => return Err(e),
        };
        let start = pos + 4;
        let n = if len <= buf.len() - start {
            len
        } else {
            buf.len() - start
        };
        let data = copy_range(buf, start, start + n);
        Ok((Tag::ByteArray(data), start + n))
    } else if id == 8 {
        match read_string(buf, pos) {
            Ok((s, p)) => Ok((Tag::String(s), p)),
            Err(e) => Err(e),
        }
    } else if id == 9 {
        if avail < 5 {
            return Err(NbtError::UnexpectedEof);
        }
        let ty = buf[pos];
        let len = match sanitize_array_len(read_be_u32(buf, pos + 1) as i32) {
            Ok(n) => n,
            Err(e) => return Err(e),
        };
        let mut items: Vec<Tag> = Vec::new();
        let mut p = pos + 5;
        let mut i: usize = 0;
        proof {
            lemma_tags_model(items@);
            assert(tags_model(items@) =~= Seq::<TagModel>::empty());
        }
        while i < len
            invariant
                pos + 5 <= p <= buf@.len(),
                i <= len,
                depth <= MAX_NBT_DEPTH,
                spec_read_list(ty, buf@, pos + 5, depth + 1, len as int, seq![]) == spec_read_list(
                    ty,
                    buf@,
                    p as int,
                    depth + 1,
                    len - i,
                    tags_model(items@),
                ),
            decreases len - i,
        {
            match read_type_depth(ty, buf, p, depth + 1) {
                Ok((t, q)) => {
                    proof {
                        lemma_tags_model_push(items@, t);
                    }
                    items.push(t);
                    p = q;
                    i = i + 1;
                },
                Err(e) => {
                    return Err(e);
                },
            }
        }
        Ok((Tag::List(items), p))
    } else if id == 10 {
        let mut entries: Vec<NamedTag> = Vec::new();
        let mut p = pos;
        let mut count: usize = 0;
        proof {
            lemma_entries_model(entries@);
            assert(entries_model(entries@) =~= Seq::<(Seq<char>, TagModel)>::empty());
        }
        loop
            invariant
                pos <= p <= buf@.len(),
                count <= MAX_COMPOUND_ENTRIES,
                depth <= MAX_NBT_DEPTH,
                spec_read_entries(buf@, pos as int, depth + 1, 0, seq![]) == spec_read_entries(
                    buf@,
                    p as int,
                    depth + 1,
                    count as int,
                    entries_model(entries@),
                ),
            decreases MAX_COMPOUND_ENTRIES + 1 - count,
        {
            if buf.len() - p < 1 {
                return Err(NbtError::UnexpectedEof);
            }
            let ty = buf[p];
            if ty == 0 {
                return Ok((Tag::Compound(entries), p + 1));
            }
            if count + 1 > MAX_COMPOUND_ENTRIES {
                return Err(NbtError::TooManyEntries);
            }
            let (name, p1) = match read_string(buf, p + 1) {
                Ok(r) => r,
                Err(e) => return Err(e),
            };
            let (value, p2) = match read_type_depth(ty, buf, p1, depth + 1) {
                Ok(r) => r,
                Err(e) => return Err(e),
            };
            put_entry(&mut entries, name, value);
            p = p2;
            count = count + 1;
        }
    } else if id == 11 {
        if avail < 4 {
            return Err(NbtError::UnexpectedEof);
        }
        let len = match sanitize_array_len(read_be_u32(buf, pos) as i32) {
            Ok(n) => n,
            Err(e) => return Err(e),
        };
        let start = pos + 4;
        if buf.len() - start < 4 * len {
            return Err(NbtError::UnexpectedEof);
        }
        let mut data: Vec<i32> = Vec::new();
        let mut i: usize = 0;
        while i < len
            invariant
                i <= len <= MAX_ARRAY_LEN,
                start + 4 * len <= buf@.len(),
                data@.len() == i,
                forall|k: int| 0 <= k < i ==> #[trigger] data@[k] == crate::bytes::be_u32(buf@, start + 4 * k) as i32,
            decreases len - i,
        {
            assert(start + 4 * i + 4 <= start + 4 * len) by (nonlinear_arith)
                requires i < len;
            data.push(read_be_u32(buf, start + 4 * i) as i32);
            i = i + 1;
        }
        proof {
            assert(data@ =~= Seq::new(len as nat, |k: int| crate::bytes::be_u32(buf@, start + 4 * k) as i32));
        }
        Ok((Tag::IntArray(data), start + 4 * len))
    } else if id == 12 {
        if avail < 4 {
            return Err(NbtError::UnexpectedEof);
        }
        let len = match sanitize_array_len(read_be_u32(buf, pos) as i32) {
            Ok(n) => n,
            Err(e) => return Err(e),
        };
        let start = pos + 4;
        if buf.len() - start < 8 * len {
            return Err(NbtError::UnexpectedEof);
        }
        let mut data: Vec<i64> = Vec::new();
        let mut i: usize = 0;
        while i < len
            invariant
                i <= len <= MAX_ARRAY_LEN,
                start + 8 * len <= buf@.len(),
                data@.len() == i,
                forall|k: int| 0 <= k < i ==> #[trigger] data@[k] == crate::bytes::be_u64(buf@, start + 8 * k) as i64,
            decreases len - i,
        {
            assert(start + 8 * i + 8 <= start + 8 * len) by (nonlinear_arith)
                requires i < len;
            data.push(read_be_u64(buf, start + 8 * i) as i64);
            i = i + 1;
        }
        proof {
            assert(data@ =~= Seq::new(len as nat, |k: int| crate::bytes::be_u64(buf@, start + 8 * k) as i64));
        }
        Ok((Tag::LongArray(data), start + 8 * len))
    } else {
        Err(NbtError::InvalidTagId(id))
    }
}

} // verus!
