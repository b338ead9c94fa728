//! The NBT writer: values to bytes.

use super::format::{
    spec_ints_bytes, spec_longs_bytes, spec_string_bytes, spec_write_entries, spec_write_list,
    spec_write_tag, tag_id,
};
use super::model::{entries_model, lemma_entries_model, lemma_tags_model, tags_model};
use super::{NamedTag, Tag};
use crate::bytes::{push_all, write_be_u16, write_be_u32, write_be_u64};
use vstd::prelude::*;

verus! {

/// Appends a string: its UTF-8 length as a big-endian `i16` (truncated when
/// the text is longer than the format allows), then its UTF-8 bytes.
pub fn write_string(buf: &mut Vec<u8>, s: &str)
    ensures
        final(buf)@ == old(buf)@ + spec_string_bytes(s@),
{
    let data = s.as_bytes();
    let len = write_be_u16(data.len() as i16 as u16);
    push_all(buf, &len);
    push_all(buf, data);
    assert(final(buf)@ =~= old(buf)@ + spec_string_bytes(s@));
}

impl Tag {
    /// The type id the format gives this value.
    pub fn internal_id(&self) -> (r: u8)
        ensures
            r == tag_id(self@),
    {
        match self {
            Tag::End => 0,
            Tag::Byte(_) => 1,
            Tag::Short(_) => 2,
            Tag::Int(_) => 3,
            Tag::Long(_) => 4,
            Tag::Float(_) => 5,
            Tag::Double(_) => 6,
            Tag::ByteArray(_) => 7,
            Tag::String(_) => 8,
            Tag::List(_) => 9,
            Tag::Compound(_) => 10,
            Tag::IntArray(_) => 11,
            Tag::LongArray(_) => 12,
        }
    }

    /// Appends the payload of this value: what `spec_write_tag` says. A list
    /// is written with the type id of its first element; compound entries
    /// are written in order, followed by an end marker.
    #[verifier::loop_isolation(false)]
    pub fn write_to(&self, buf: &mut Vec<u8>)
        ensures
            final(buf)@ == old(buf)@ + spec_write_tag(self@),
        decreases self,
    {
        match self {
            Tag::End => {
                assert(final(buf)@ =~= old(buf)@ + spec_write_tag(self@));
            },
            Tag::Byte(v) => {
                buf.push(*v as u8);
                assert(final(buf)@ =~= old(buf)@ + spec_write_tag(self@));
            },
            Tag::Short(v) => {
                push_all(buf, &write_be_u16(*v as u16));
            },
            Tag::Int(v) => {
                push_all(buf, &write_be_u32(*v as u32));
            },
            Tag::Long(v) => {
                push_all(buf, &write_be_u64(*v as u64));
            },
            Tag::Float(v) => {
                push_all(buf, &write_be_u32(*v));
            },
            Tag::Double(v) => {
                push_all(buf, &write_be_u64(*v));
            },
            Tag::ByteArray(v) => {
                push_all(buf, &write_be_u32(v.len() as i32 as u32));
                push_all(buf, v.as_slice());
                assert(final(buf)@ =~= old(buf)@ + spec_write_tag(self@));
            },
            Tag::String(s) => {
                write_string(buf, s.as_str());
            },
            Tag::List(v) => {
                let ghost m = tags_model(v@);
                proof {
                    lemma_tags_model(v@);
                }
                if v.len() == 0 {
                    buf.push(0);
                    push_all(buf, &write_be_u32(0));
                    assert(final(buf)@ =~= old(buf)@ + spec_write_tag(self@));
                } else {
                    buf.push(v[0].internal_id());
                    push_all(buf, &write_be_u32(v.len() as i32 as u32));
                    let ghost head = buf@;
                    assert(old(buf)@ + spec_write_tag(self@) =~= head + spec_write_list(m));
                    let mut i: usize = 0;
                    assert(m.subrange(0, m.len() as int) =~= m);
                    while i < v.len()
                        invariant
                            i <= v@.len(),
                            m == tags_model(v@),
                            m.len() == v@.len(),
                            forall|k: int| 0 <= k < v@.len() ==> #[trigger] m[k] == v@[k]@,
                            buf@ + spec_write_list(m.subrange(i as int, m.len() as int)) == head
                                + spec_write_list(m),
                        decreases v@.len() - i,
                    {
                        let ghost before = buf@;
                        let ghost rest = m.subrange(i as int, m.len() as int);
                        assert(rest.subrange(1, rest.len() as int) =~= m.subrange(
                            i + 1,
                            m.len() as int,
                        ));
                        v[i].write_to(buf);
                        i = i + 1;
                        assert(before + spec_write_list(rest) =~= buf@ + spec_write_list(
                            m.subrange(i as int, m.len() as int),
                        ));
                    }
                    assert(buf@ =~= head + spec_write_list(m));
                }
            },
            Tag::Compound(v) => {
                let ghost m = entries_model(v@);
                proof {
                    lemma_entries_model(v@);
                }
                let ghost head = buf@;
                let mut i: usize = 0;
                assert(m.subrange(0, m.len() as int) =~= m);
                while i < v.len()
                    invariant
                        i <= v@.len(),
                        m == entries_model(v@),
                        m.len() == v@.len(),
                        forall|k: int|
                            0 <= k < v@.len() ==> #[trigger] m[k] == (v@[k].0@, v@[k].1@),
                        buf@ + spec_write_entries(m.subrange(i as int, m.len() as int)) == head
                            + spec_write_entries(m),
                    decreases v@.len() - i,
                {
                    let ghost before = buf@;
                    let ghost rest = m.subrange(i as int, m.len() as int);
                    assert(rest.subrange(1, rest.len() as int) =~= m.subrange(
                        i + 1,
                        m.len() as int,
                    ));
                    let e: &NamedTag = &v[i];
                    buf.push(e.1.internal_id());
                    write_string(buf, e.0.as_str());
                    e.1.write_to(buf);
                    i = i + 1;
                    assert(before + spec_write_entries(rest) =~= buf@ + spec_write_entries(
                        m.subrange(i as int, m.len() as int),
                    ));
                }
                buf.push(0);
                assert(final(buf)@ =~= old(buf)@ + spec_write_tag(self@));
            },
            Tag::IntArray(v) => {
                push_all(buf, &write_be_u32(v.len() as i32 as u32));
                let ghost head = buf@;
                let mut i: usize = 0;
                assert(v@.subrange(0, v@.len() as int) =~= v@);
                while i < v.len()
                    invariant
                        i <= v@.len(),
                        buf@ + spec_ints_bytes(v@.subrange(i as int, v@.len() as int)) == head
                            + spec_ints_bytes(v@),
                    decreases v@.len() - i,
                {
                    let ghost before = buf@;
                    let ghost rest = v@.subrange(i as int, v@.len() as int);
                    assert(rest.subrange(1, rest.len() as int) =~= v@.subrange(
                        i + 1,
                        v@.len() as int,
                    ));
                    push_all(buf, &write_be_u32(v[i] as u32));
                    i = i + 1;
                    assert(before + spec_ints_bytes(rest) =~= buf@ + spec_ints_bytes(
                        v@.subrange(i as int, v@.len() as int),
                    ));
                }
                assert(final(buf)@ =~= old(buf)@ + spec_write_tag(self@));
            },
            Tag::LongArray(v) => {
                push_all(buf, &write_be_u32(v.len() as i32 as u32));
                let ghost head = buf@;
                let mut i: usize = 0;
                assert(v@.subrange(0, v@.len() as int) =~= v@);
                while i < v.len()
                    invariant
                        i <= v@.len(),
                        buf@ + spec_longs_bytes(v@.subrange(i as int, v@.len() as int)) == head
                            + spec_longs_bytes(v@),
                    decreases v@.len() - i,
                {
                    let ghost before = buf@;
                    let ghost rest = v@.subrange(i as int, v@.len() as int);
                    assert(rest.subrange(1, rest.len() as int) =~= v@.subrange(
                        i + 1,
                        v@.len() as int,
                    ));
                    push_all(buf, &write_be_u64(v[i] as u64));
                    i = i + 1;
                    assert(before + spec_longs_bytes(rest) =~= buf@ + spec_longs_bytes(
                        v@.subrange(i as int, v@.len() as int),
                    ));
                }
                assert(final(buf)@ =~= old(buf)@ + spec_write_tag(self@));
            },
        }
    }
}

} // verus!
