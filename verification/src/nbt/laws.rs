//! What holds of the NBT reader and writer together.

use super::format::{
    compound_get, compound_put, entries_well_formed, find_name, list_well_formed, names_distinct,
    spec_ints_bytes, spec_longs_bytes, spec_read_entries, spec_read_list, spec_read_string,
    spec_read_tag, spec_string_bytes, spec_write_entries, spec_write_list, spec_write_tag, tag_id,
    well_formed, MAX_ARRAY_LEN, MAX_COMPOUND_ENTRIES,
};
use super::model::TagModel;
use super::NbtError;
use crate::bytes::{
    be_bytes_u16, be_bytes_u32, be_bytes_u64, be_u32, be_u64, lemma_be_u16_roundtrip,
    lemma_be_u32_roundtrip, lemma_be_u64_roundtrip,
};
use vstd::prelude::*;
use vstd::utf8::{encode_utf8, encode_utf8_decode_utf8, encode_utf8_valid_utf8};

verus! {

/// A window of `s` that holds `w` holds each part of `w`.
pub proof fn lemma_window(s: Seq<u8>, pos: int, w: Seq<u8>, i: int, j: int)
    requires
        0 <= pos,
        pos + w.len() <= s.len(),
        s.subrange(pos, pos + w.len()) == w,
        0 <= i <= j <= w.len(),
    ensures
        s.subrange(pos + i, pos + j) == w.subrange(i, j),
{
    assert forall|k: int| 0 <= k < j - i implies #[trigger] s.subrange(pos + i, pos + j)[k]
        == w.subrange(i, j)[k] by {
        assert(s.subrange(pos, pos + w.len())[i + k] == w[i + k]);
    }
    assert(s.subrange(pos + i, pos + j) =~= w.subrange(i, j));
}

/// Where `find_name` lands: the first entry of that name from `from` on, or
/// `-1` when no entry from `from` on has it.
pub proof fn lemma_find_name(es: Seq<(Seq<char>, TagModel)>, name: Seq<char>, from: nat)
    ensures
        find_name(es, name, from) == -1 || find_name(es, name, from) >= 0,
        find_name(es, name, from) == -1 ==> forall|j: int|
            from <= j < es.len() ==> #[trigger] es[j].0 != name,
        find_name(es, name, from) >= 0 ==> from <= find_name(es, name, from) < es.len(),
        find_name(es, name, from) >= 0 ==> es[find_name(es, name, from)].0 == name,
        find_name(es, name, from) >= 0 ==> forall|j: int|
            from <= j < find_name(es, name, from) ==> #[trigger] es[j].0 != name,
    decreases es.len() - from,
{
    if from < es.len() && es[from as int].0 != name {
        lemma_find_name(es, name, from + 1);
    }
}

/// A compound gives back, under a name, what was last put under it, and
/// putting under one name leaves every other name's value as it was.
pub proof fn law_get_put(
    es: Seq<(Seq<char>, TagModel)>,
    name: Seq<char>,
    v: TagModel,
    other: Seq<char>,
)
    ensures
        compound_get(compound_put(es, name, v), name) == Some(v),
        other != name ==> compound_get(compound_put(es, name, v), other) == compound_get(
            es,
            other,
        ),
{
    let put = compound_put(es, name, v);
    lemma_find_name(es, name, 0);
    lemma_find_name(put, name, 0);
    lemma_find_name(es, other, 0);
    lemma_find_name(put, other, 0);
    let i = find_name(es, name, 0);
    // the position that now holds `name`
    let at = if i >= 0 { i } else { es.len() as int };
    assert(put.len() == es.len() || put.len() == es.len() + 1);
    assert(put[at] == (name, v));
    assert forall|j: int| 0 <= j < put.len() && j != at implies #[trigger] put[j] == es[j] by {}
    assert forall|j: int| 0 <= j < at implies #[trigger] put[j].0 != name by {
        assert(put[j] == es[j]);
        assert(es[j].0 != name);
    }
    let r = find_name(put, name, 0);
    assert(r >= 0) by {
        if r == -1 {
            assert(put[at].0 != name);
        }
    }
    assert(r == at) by {
        if r < at {
            assert(put[r].0 != name);
        } else if r > at {
            assert(put[at].0 != name);
        }
    }
    if other != name {
        let k = find_name(es, other, 0);
        let k2 = find_name(put, other, 0);
        if k >= 0 {
            assert(k != at);
            assert(put[k] == es[k]);
            assert forall|j: int| 0 <= j < k implies #[trigger] put[j].0 != other by {
                if j != at {
                    assert(put[j] == es[j]);
                    assert(es[j].0 != other);
                }
            }
            assert(k2 >= 0) by {
                if k2 == -1 {
                    assert(put[k].0 != other);
                }
            }
            assert(k2 == k) by {
                if k2 < k {
                    assert(put[k2].0 != other);
                } else if k2 > k {
                    assert(put[k].0 != other);
                }
            }
        } else {
            assert forall|j: int| 0 <= j < put.len() implies #[trigger] put[j].0 != other by {
                if j != at {
                    assert(put[j] == es[j]);
                    assert(es[j].0 != other);
                }
            }
            assert(k2 == -1);
        }
    }
}

/// Putting into a compound whose names are distinct keeps them distinct.
pub proof fn law_put_keeps_names_distinct(
    es: Seq<(Seq<char>, TagModel)>,
    name: Seq<char>,
    v: TagModel,
)
    requires
        names_distinct(es),
    ensures
        names_distinct(compound_put(es, name, v)),
{
    lemma_find_name(es, name, 0);
    let put = compound_put(es, name, v);
    let i = find_name(es, name, 0);
    let at = if i >= 0 { i } else { es.len() as int };
    assert forall|j: int| 0 <= j < put.len() && j != at implies #[trigger] put[j] == es[j] by {}
    assert(put[at].0 == name);
    assert forall|a: int, b: int| 0 <= a < b < put.len() implies put[a].0 != put[b].0 by {
        if a != at && b != at {
            assert(put[a] == es[a] && put[b] == es[b]);
        } else if a == at {
            assert(put[b] == es[b]);
            if i >= 0 {
                assert(es[b].0 != es[i].0);
            }
        } else {
            assert(put[a] == es[a]);
            if i >= 0 {
                assert(es[a].0 != es[i].0);
            } else {
                assert(es[a].0 != name);
            }
        }
    }
}

/// Reading the rest of a compound whose entries so far have distinct
/// names yields entries with distinct names.
pub proof fn lemma_read_entries_distinct(
    s: Seq<u8>,
    pos: int,
    depth: int,
    count: int,
    acc: Seq<(Seq<char>, TagModel)>,
)
    requires
        names_distinct(acc),
    ensures
        spec_read_entries(s, pos, depth, count, acc) matches Ok((es, _)) ==> names_distinct(es),
    decreases 65537 - count,
{
    if pos + 1 <= s.len() && s[pos] != 0 && count + 1 <= MAX_COMPOUND_ENTRIES {
        if let Ok((name, p1)) = spec_read_string(s, pos + 1) {
            if depth <= 512 {
                if let Ok((v, p2)) = spec_read_tag(s[pos], s, p1, depth) {
                    law_put_keeps_names_distinct(acc, name, v);
                    lemma_read_entries_distinct(s, p2, depth, count + 1, compound_put(acc, name, v));
                }
            }
        }
    }
}

/// A compound the reader produces never holds two entries of one name.
pub proof fn law_read_compound_names_distinct(s: Seq<u8>, pos: int, depth: int)
    ensures
        spec_read_tag(10, s, pos, depth) matches Ok((TagModel::Compound(es), _)) ==> names_distinct(
            es,
        ),
{
    assert(names_distinct(Seq::<(Seq<char>, TagModel)>::empty()));
    lemma_read_entries_distinct(s, pos, depth + 1, 0, seq![]);
}

/// Reading back a written string gives the string, when its UTF-8 form fits
/// the format's length field.
pub proof fn law_read_written_string(text: Seq<char>, s: Seq<u8>, pos: int)
    requires
        encode_utf8(text).len() <= 0x7fff,
        0 <= pos,
        pos + spec_string_bytes(text).len() <= s.len(),
        s.subrange(pos, pos + spec_string_bytes(text).len()) == spec_string_bytes(text),
    ensures
        spec_read_string(s, pos) == Ok::<(Seq<char>, int), NbtError>(
            (text, pos + spec_string_bytes(text).len()),
        ),
{
    let b = encode_utf8(text);
    let n: i16 = b.len() as i16;
    let w = spec_string_bytes(text);
    lemma_window(s, pos, w, 0, 2);
    assert(w.subrange(0, 2) =~= be_bytes_u16(n as u16));
    lemma_be_u16_roundtrip(n as u16, s, pos);
    assert((n as u16) as i16 == n) by (bit_vector);
    lemma_window(s, pos, w, 2, w.len() as int);
    assert(w.subrange(2, w.len() as int) =~= b);
    encode_utf8_valid_utf8(text);
    encode_utf8_decode_utf8(text);
}

} // verus!

verus! {

/// The bytes of `v` are four per element, each element's big-endian bytes
/// in place.
pub proof fn lemma_ints_bytes(v: Seq<i32>)
    ensures
        spec_ints_bytes(v).len() == 4 * v.len(),
        forall|i: int|
            0 <= i < v.len() ==> #[trigger] spec_ints_bytes(v).subrange(4 * i, 4 * i + 4)
                == be_bytes_u32(v[i] as u32),
    decreases v.len(),
{
    if v.len() > 0 {
        let rest = v.subrange(1, v.len() as int);
        lemma_ints_bytes(rest);
        let w = spec_ints_bytes(v);
        assert forall|i: int| 0 <= i < v.len() implies #[trigger] w.subrange(4 * i, 4 * i + 4)
            == be_bytes_u32(v[i] as u32) by {
            if i == 0 {
                assert(w.subrange(0, 4) =~= be_bytes_u32(v[0] as u32));
            } else {
                assert(rest[i - 1] == v[i]);
                assert(w.subrange(4 * i, 4 * i + 4) =~= spec_ints_bytes(rest).subrange(
                    4 * (i - 1),
                    4 * (i - 1) + 4,
                ));
            }
        }
    }
}

/// The bytes of `v` are eight per element, each element's big-endian bytes
/// in place.
pub proof fn lemma_longs_bytes(v: Seq<i64>)
    ensures
        spec_longs_bytes(v).len() == 8 * v.len(),
        forall|i: int|
            0 <= i < v.len() ==> #[trigger] spec_longs_bytes(v).subrange(8 * i, 8 * i + 8)
                == be_bytes_u64(v[i] as u64),
    decreases v.len(),
{
    if v.len() > 0 {
        let rest = v.subrange(1, v.len() as int);
        lemma_longs_bytes(rest);
        let w = spec_longs_bytes(v);
        assert forall|i: int| 0 <= i < v.len() implies #[trigger] w.subrange(8 * i, 8 * i + 8)
            == be_bytes_u64(v[i] as u64) by {
            if i == 0 {
                assert(w.subrange(0, 8) =~= be_bytes_u64(v[0] as u64));
            } else {
                assert(rest[i - 1] == v[i]);
                assert(w.subrange(8 * i, 8 * i + 8) =~= spec_longs_bytes(rest).subrange(
                    8 * (i - 1),
                    8 * (i - 1) + 8,
                ));
            }
        }
    }
}

/// The length field of an array of `n` elements reads back as `n`.
proof fn lemma_len_field(s: Seq<u8>, pos: int, n: nat)
    requires
        n <= 16777216,
        0 <= pos,
        pos + 4 <= s.len(),
        s.subrange(pos, pos + 4) == be_bytes_u32(n as i32 as u32),
    ensures
        be_u32(s, pos) as i32 == n,
{
    let x: i32 = n as i32;
    lemma_be_u32_roundtrip(x as u32, s, pos);
    assert((x as u32) as i32 == x) by (bit_vector);
}

/// Reading back a written number gives it.
proof fn lemma_read_written_number(m: TagModel, s: Seq<u8>, pos: int, depth: int)
    requires
        well_formed(m, depth),
        m is Byte || m is Short || m is Int || m is Long || m is Float || m is Double,
        0 <= pos,
        pos + spec_write_tag(m).len() <= s.len(),
        s.subrange(pos, pos + spec_write_tag(m).len()) == spec_write_tag(m),
    ensures
        spec_read_tag(tag_id(m), s, pos, depth) == Ok::<(TagModel, int), NbtError>(
            (m, pos + spec_write_tag(m).len()),
        ),
{
    match m {
        TagModel::Byte(v) => {
            assert(s[pos] == s.subrange(pos, pos + 1)[0]);
            assert(((v as u8) as i8) == v) by (bit_vector);
        },
        TagModel::Short(v) => {
            lemma_be_u16_roundtrip(v as u16, s, pos);
            assert(((v as u16) as i16) == v) by (bit_vector);
        },
        TagModel::Int(v) => {
            lemma_be_u32_roundtrip(v as u32, s, pos);
            assert(((v as u32) as i32) == v) by (bit_vector);
        },
        TagModel::Long(v) => {
            lemma_be_u64_roundtrip(v as u64, s, pos);
            assert(((v as u64) as i64) == v) by (bit_vector);
        },
        TagModel::Float(v) => {
            lemma_be_u32_roundtrip(v, s, pos);
        },
        TagModel::Double(v) => {
            lemma_be_u64_roundtrip(v, s, pos);
        },
        _ => {},
    }
}

/// Reading back a written array gives it.
proof fn lemma_read_written_array(m: TagModel, s: Seq<u8>, pos: int, depth: int)
    requires
        well_formed(m, depth),
        m is ByteArray || m is IntArray || m is LongArray,
        0 <= pos,
        pos + spec_write_tag(m).len() <= s.len(),
        s.subrange(pos, pos + spec_write_tag(m).len()) == spec_write_tag(m),
    ensures
        spec_read_tag(tag_id(m), s, pos, depth) == Ok::<(TagModel, int), NbtError>(
            (m, pos + spec_write_tag(m).len()),
        ),
{
    let w = spec_write_tag(m);
    match m {
        TagModel::ByteArray(b) => {
            lemma_window(s, pos, w, 0, 4);
            assert(w.subrange(0, 4) =~= be_bytes_u32(b.len() as i32 as u32));
            lemma_len_field(s, pos, b.len());
            lemma_window(s, pos, w, 4, w.len() as int);
            assert(w.subrange(4, w.len() as int) =~= b);
        },
        TagModel::IntArray(v) => {
            lemma_window(s, pos, w, 0, 4);
            assert(w.subrange(0, 4) =~= be_bytes_u32(v.len() as i32 as u32));
            lemma_len_field(s, pos, v.len());
            lemma_ints_bytes(v);
            let start = pos + 4;
            assert forall|i: int| 0 <= i < v.len() implies #[trigger] (be_u32(s, start + 4 * i)
                as i32) == v[i] by {
                lemma_window(s, pos, w, 4 + 4 * i, 8 + 4 * i);
                assert(w.subrange(4 + 4 * i, 8 + 4 * i) =~= spec_ints_bytes(v).subrange(
                    4 * i,
                    4 * i + 4,
                ));
                let x = v[i];
                lemma_be_u32_roundtrip(x as u32, s, start + 4 * i);
                assert((x as u32) as i32 == x) by (bit_vector);
            }
            assert(Seq::new(v.len(), |i: int| be_u32(s, start + 4 * i) as i32) =~= v);
        },
        TagModel::LongArray(v) => {
            lemma_window(s, pos, w, 0, 4);
            assert(w.subrange(0, 4) =~= be_bytes_u32(v.len() as i32 as u32));
            lemma_len_field(s, pos, v.len());
            lemma_longs_bytes(v);
            let start = pos + 4;
            assert forall|i: int| 0 <= i < v.len() implies #[trigger] (be_u64(s, start + 8 * i)
                as i64) == v[i] by {
                lemma_window(s, pos, w, 4 + 8 * i, 12 + 8 * i);
                assert(w.subrange(4 + 8 * i, 12 + 8 * i) =~= spec_longs_bytes(v).subrange(
                    8 * i,
                    8 * i + 8,
                ));
                let x = v[i];
                lemma_be_u64_roundtrip(x as u64, s, start + 8 * i);
                assert((x as u64) as i64 == x) by (bit_vector);
            }
            assert(Seq::new(v.len(), |i: int| be_u64(s, start + 8 * i) as i64) =~= v);
        },
        _ => {},
    }
}

/// Reading back the bytes the writer produced for a well-formed value gives
/// the value and stops right after those bytes, whatever follows them.
pub proof fn law_read_written_tag(m: TagModel, s: Seq<u8>, pos: int, depth: int)
    requires
        well_formed(m, depth),
        0 <= pos,
        pos + spec_write_tag(m).len() <= s.len(),
        s.subrange(pos, pos + spec_write_tag(m).len()) == spec_write_tag(m),
    ensures
        spec_read_tag(tag_id(m), s, pos, depth) == Ok::<(TagModel, int), NbtError>(
            (m, pos + spec_write_tag(m).len()),
        ),
    decreases m, 1int,
{
    let w = spec_write_tag(m);
    match m {
        TagModel::Str(text) => {
            law_read_written_string(text, s, pos);
        },
        TagModel::List(items) => {
            lemma_read_written_list_tag(m, s, pos, depth);
        },
        TagModel::Compound(es) => {
            lemma_window(s, pos, w, 0, w.len() as int);
            assert(w.subrange(0, w.len() as int) =~= w);
            assert(Seq::<(Seq<char>, TagModel)>::empty() + es =~= es);
            law_read_written_entries(es, s, pos, depth + 1, seq![]);
        },
        TagModel::ByteArray(_) | TagModel::IntArray(_) | TagModel::LongArray(_) => {
            lemma_read_written_array(m, s, pos, depth);
        },
        TagModel::End => {},
        _ => {
            lemma_read_written_number(m, s, pos, depth);
        },
    }
}

/// Reading back a written list gives it.
proof fn lemma_read_written_list_tag(m: TagModel, s: Seq<u8>, pos: int, depth: int)
    requires
        well_formed(m, depth),
        m is List,
        0 <= pos,
        pos + spec_write_tag(m).len() <= s.len(),
        s.subrange(pos, pos + spec_write_tag(m).len()) == spec_write_tag(m),
    ensures
        spec_read_tag(tag_id(m), s, pos, depth) == Ok::<(TagModel, int), NbtError>(
            (m, pos + spec_write_tag(m).len()),
        ),
    decreases m, 0int,
{
    let w = spec_write_tag(m);
    let items = m->List_0;
    lemma_window(s, pos, w, 1, 5);
    if items.len() == 0 {
        assert(w.subrange(1, 5) =~= be_bytes_u32(0 as i32 as u32));
        lemma_len_field(s, pos + 1, 0);
        assert(s[pos] == s.subrange(pos, pos + w.len())[0]);
        assert(spec_read_list(s[pos], s, pos + 5, depth + 1, 0, seq![]) == Ok::<
            (Seq<TagModel>, int),
            NbtError,
        >((seq![], pos + 5)));
        assert(items =~= seq![]);
    } else {
        assert(w.subrange(1, 5) =~= be_bytes_u32(items.len() as i32 as u32));
        lemma_len_field(s, pos + 1, items.len());
        assert(s[pos] == s.subrange(pos, pos + w.len())[0]);
        lemma_window(s, pos, w, 5, w.len() as int);
        assert(w.subrange(5, w.len() as int) =~= spec_write_list(items));
        law_read_written_list(items, tag_id(items[0]), s, pos + 5, depth + 1, seq![]);
        assert(Seq::<TagModel>::empty() + items =~= items);
    }
}

/// Reading back written list elements gives them, after those already read.
pub proof fn law_read_written_list(
    items: Seq<TagModel>,
    id: u8,
    s: Seq<u8>,
    pos: int,
    depth: int,
    acc: Seq<TagModel>,
)
    requires
        list_well_formed(items, id, depth),
        0 <= pos,
        pos + spec_write_list(items).len() <= s.len(),
        s.subrange(pos, pos + spec_write_list(items).len()) == spec_write_list(items),
    ensures
        spec_read_list(id, s, pos, depth, items.len() as int, acc) == Ok::<
            (Seq<TagModel>, int),
            NbtError,
        >((acc + items, pos + spec_write_list(items).len())),
    decreases items, 0int,
{
    let w = spec_write_list(items);
    if items.len() == 0 {
        assert(acc + items =~= acc);
    } else {
        let first = items[0];
        let rest = items.subrange(1, items.len() as int);
        let wf = spec_write_tag(first);
        lemma_window(s, pos, w, 0, wf.len() as int);
        assert(w.subrange(0, wf.len() as int) =~= wf);
        law_read_written_tag(first, s, pos, depth);
        lemma_window(s, pos, w, wf.len() as int, w.len() as int);
        assert(w.subrange(wf.len() as int, w.len() as int) =~= spec_write_list(rest));
        law_read_written_list(rest, id, s, pos + wf.len(), depth, acc.push(first));
        assert(acc.push(first) + rest =~= acc + items);
    }
}

/// Reading back written compound entries, then the end marker, gives them
/// after those already read, when no two names clash.
pub proof fn law_read_written_entries(
    es: Seq<(Seq<char>, TagModel)>,
    s: Seq<u8>,
    pos: int,
    depth: int,
    acc: Seq<(Seq<char>, TagModel)>,
)
    requires
        entries_well_formed(es, depth),
        names_distinct(acc + es),
        acc.len() + es.len() <= MAX_COMPOUND_ENTRIES,
        0 <= pos,
        pos + spec_write_entries(es).len() + 1 <= s.len(),
        s.subrange(pos, pos + spec_write_entries(es).len() + 1) == spec_write_entries(es) + seq![
            0u8,
        ],
    ensures
        spec_read_entries(s, pos, depth, acc.len() as int, acc) == Ok::<
            (Seq<(Seq<char>, TagModel)>, int),
            NbtError,
        >((acc + es, pos + spec_write_entries(es).len() + 1)),
    decreases es, 0int,
{
    let w = spec_write_entries(es) + seq![0u8];
    if es.len() == 0 {
        assert(s[pos] == s.subrange(pos, pos + w.len())[0]);
        assert(acc + es =~= acc);
    } else {
        let e = es[0];
        let rest = es.subrange(1, es.len() as int);
        let sb = spec_string_bytes(e.0);
        let wv = spec_write_tag(e.1);
        let a: int = 1 + sb.len() as int;
        let b: int = a + wv.len();
        let p1 = pos + a;
        let p2 = pos + b;
        assert(s[pos] == s.subrange(pos, pos + w.len())[0]);
        assert(w[0] == tag_id(e.1));
        assert(well_formed(e.1, depth));
        assert(tag_id(e.1) != 0);
        lemma_window(s, pos, w, 1, a);
        assert(w.subrange(1, a) =~= sb);
        law_read_written_string(e.0, s, pos + 1);
        lemma_window(s, pos, w, a, b);
        assert(w.subrange(a, b) =~= wv);
        law_read_written_tag(e.1, s, p1, depth);
        lemma_window(s, pos, w, b, w.len() as int);
        assert(w.subrange(b, w.len() as int) =~= spec_write_entries(rest)
            + seq![0u8]);
        let all = acc + es;
        assert forall|j: int| 0 <= j < acc.len() implies #[trigger] acc[j].0 != e.0 by {
            assert(all[j] == acc[j]);
            assert(all[acc.len() as int] == e);
        }
        lemma_find_name(acc, e.0, 0);
        assert(compound_put(acc, e.0, e.1) == acc.push(e));
        assert(acc.push(e) + rest =~= all);
        law_read_written_entries(rest, s, p2, depth, acc.push(e));
    }
}

/// A well-formed document survives writing and reading back: the reader
/// returns it and consumes exactly the bytes written.
pub proof fn law_read_from_written(m: TagModel)
    requires
        m is Compound,
        well_formed(m, 0),
    ensures
        spec_read_tag(10, spec_write_tag(m), 0, 0) == Ok::<(TagModel, int), NbtError>(
            (m, spec_write_tag(m).len() as int),
        ),
{
    let w = spec_write_tag(m);
    assert(w.subrange(0, w.len() as int) =~= w);
    law_read_written_tag(m, w, 0, 0);
}

} // verus!

verus! {

/// Reading the rest of a compound keeps at most one entry per entry read.
pub proof fn lemma_read_entries_count(
    s: Seq<u8>,
    pos: int,
    depth: int,
    count: int,
    acc: Seq<(Seq<char>, TagModel)>,
)
    requires
        acc.len() <= count <= MAX_COMPOUND_ENTRIES,
    ensures
        spec_read_entries(s, pos, depth, count, acc) matches Ok((es, _)) ==> es.len()
            <= MAX_COMPOUND_ENTRIES,
    decreases 65537 - count,
{
    if pos + 1 <= s.len() && s[pos] != 0 && count + 1 <= MAX_COMPOUND_ENTRIES {
        if let Ok((name, p1)) = spec_read_string(s, pos + 1) {
            if depth <= 512 {
                if let Ok((v, p2)) = spec_read_tag(s[pos], s, p1, depth) {
                    lemma_find_name(acc, name, 0);
                    lemma_read_entries_count(s, p2, depth, count + 1, compound_put(acc, name, v));
                }
            }
        }
    }
}

/// Reading `n` more list elements adds exactly `n` to those already read.
pub proof fn lemma_read_list_len(
    ty: u8,
    s: Seq<u8>,
    pos: int,
    depth: int,
    n: int,
    acc: Seq<TagModel>,
)
    ensures
        spec_read_list(ty, s, pos, depth, n, acc) matches Ok((items, _)) ==> items.len()
            == acc.len() + if n > 0 {
            n
        } else {
            0
        },
    decreases n,
{
    if n > 0 && depth <= 512 {
        if let Ok((t, p)) = spec_read_tag(ty, s, pos, depth) {
            lemma_read_list_len(ty, s, p, depth, n - 1, acc.push(t));
        }
    }
}

/// Whatever the input, a value the reader produces never holds more
/// elements than the limits allow: arrays and lists at most
/// `MAX_ARRAY_LEN`, compounds at most `MAX_COMPOUND_ENTRIES` entries.
pub proof fn law_read_sizes_bounded(id: u8, s: Seq<u8>, pos: int, depth: int)
    requires
        0 <= pos,
    ensures
        spec_read_tag(id, s, pos, depth) matches Ok((m, _)) ==> match m {
            TagModel::ByteArray(b) => b.len() <= MAX_ARRAY_LEN,
            TagModel::List(items) => items.len() <= MAX_ARRAY_LEN,
            TagModel::Compound(es) => es.len() <= MAX_COMPOUND_ENTRIES,
            TagModel::IntArray(v) => v.len() <= MAX_ARRAY_LEN,
            TagModel::LongArray(v) => v.len() <= MAX_ARRAY_LEN,
            _ => true,
        },
{
    if id == 9 && pos + 5 <= s.len() && depth <= 512 {
        if let Ok(len) = super::format::spec_sanitize_array_len(be_u32(s, pos + 1) as i32) {
            lemma_read_list_len(s[pos], s, pos + 5, depth + 1, len as int, seq![]);
            assert(len <= MAX_ARRAY_LEN);
        }
    }
    if id == 7 || id == 11 || id == 12 {
        if pos + 4 <= s.len() && depth <= 512 {
            if let Ok(len) = super::format::spec_sanitize_array_len(be_u32(s, pos) as i32) {
                assert(len <= MAX_ARRAY_LEN);
            }
        }
    }
    if id == 10 {
        lemma_read_entries_count(s, pos, depth + 1, 0, seq![]);
    }
}

} // verus!

verus! {

/// The format's fixed type ids: end 0, byte 1, short 2, int 3, long 4,
/// float 5, double 6, byte array 7, string 8, list 9, compound 10, int
/// array 11, long array 12.
pub proof fn law_type_ids(m: TagModel)
    ensures
        tag_id(m) == match m {
            TagModel::End => 0u8,
            TagModel::Byte(_) => 1u8,
            TagModel::Short(_) => 2u8,
            TagModel::Int(_) => 3u8,
            TagModel::Long(_) => 4u8,
            TagModel::Float(_) => 5u8,
            TagModel::Double(_) => 6u8,
            TagModel::ByteArray(_) => 7u8,
            TagModel::Str(_) => 8u8,
            TagModel::List(_) => 9u8,
            TagModel::Compound(_) => 10u8,
            TagModel::IntArray(_) => 11u8,
            TagModel::LongArray(_) => 12u8,
        },
{
}

/// What the reader reads under a type id is a value of that id.
pub proof fn law_read_value_has_its_id(id: u8, s: Seq<u8>, pos: int, depth: int)
    ensures
        spec_read_tag(id, s, pos, depth) matches Ok((m, _)) ==> tag_id(m) == id,
{
}

/// The numbers of the format, under their fixed ids, are big-endian: id 1
/// a signed byte, id 2 a signed 16-bit integer, id 3 a signed 32-bit
/// integer, id 4 a signed 64-bit integer, id 5 the 32 bits of a float and
/// id 6 the 64 bits of a double, each taking exactly its width.
pub proof fn law_read_numbers(s: Seq<u8>, pos: int, depth: int)
    requires
        0 <= pos,
        pos + 8 <= s.len(),
        depth <= 512,
    ensures
        spec_read_tag(1, s, pos, depth) == Ok::<(TagModel, int), NbtError>(
            (TagModel::Byte(s[pos] as i8), pos + 1),
        ),
        spec_read_tag(2, s, pos, depth) == Ok::<(TagModel, int), NbtError>(
            (TagModel::Short((s[pos] as int * 0x100 + s[pos + 1] as int) as u16 as i16), pos + 2),
        ),
        spec_read_tag(3, s, pos, depth) == Ok::<(TagModel, int), NbtError>(
            (
                TagModel::Int(
                    (s[pos] as int * 0x100_0000 + s[pos + 1] as int * 0x1_0000 + s[pos + 2] as int
                        * 0x100 + s[pos + 3] as int) as u32 as i32,
                ),
                pos + 4,
            ),
        ),
        spec_read_tag(4, s, pos, depth) == Ok::<(TagModel, int), NbtError>(
            (TagModel::Long(be_u64(s, pos) as i64), pos + 8),
        ),
        spec_read_tag(5, s, pos, depth) == Ok::<(TagModel, int), NbtError>(
            (
                TagModel::Float(
                    (s[pos] as int * 0x100_0000 + s[pos + 1] as int * 0x1_0000 + s[pos + 2] as int
                        * 0x100 + s[pos + 3] as int) as u32,
                ),
                pos + 4,
            ),
        ),
        spec_read_tag(6, s, pos, depth) == Ok::<(TagModel, int), NbtError>(
            (TagModel::Double(be_u64(s, pos)), pos + 8),
        ),
{
}

} // verus!
