//! Building NBT values and looking inside them.

use super::format::{compound_get, compound_put, spec_read_tag};
use super::model::{entries_model, tags_model, TagModel};
use super::read::{put_entry, read_type_depth};
use super::{NamedTag, NbtError, Tag};
use vstd::prelude::*;

verus! {

impl Tag {
    /// An empty compound.
    pub fn new_compound() -> (t: Tag)
        ensures
            t@ == TagModel::Compound(Seq::empty()),
    {
        let t = Tag::Compound(Vec::new());
        assert(entries_model(Seq::<NamedTag>::empty()) =~= Seq::empty());
        t
    }

    /// An empty list.
    pub fn new_list() -> (t: Tag)
        ensures
            t@ == TagModel::List(Seq::empty()),
    {
        let t = Tag::List(Vec::new());
        assert(tags_model(Seq::<Tag>::empty()) =~= Seq::empty());
        t
    }

    /// The value this compound holds under `name`. Only compounds hold named
    /// values: `self` must be one.
    #[verifier::loop_isolation(false)]
    pub fn get(&self, name: &str) -> (r: Option<&Tag>)
        requires
            self@ is Compound,
        ensures
            match r {
                Some(t) => compound_get(self@->Compound_0, name@) == Some(t@),
                None => compound_get(self@->Compound_0, name@) is None,
            },
    {
        let key = name.to_owned();
        match self {
            Tag::Compound(entries) => {
                let ghost m = entries_model(entries@);
                proof {
                    super::model::lemma_entries_model(entries@);
                }
                let mut i: usize = 0;
                while i < entries.len()
                    invariant
                        i <= entries@.len(),
                        m == entries_model(entries@),
                        m.len() == entries@.len(),
                        forall|k: int|
                            0 <= k < entries@.len() ==> #[trigger] m[k] == (
                                entries@[k].0@,
                                entries@[k].1@,
                            ),
                        super::format::find_name(m, key@, 0) == super::format::find_name(
                            m,
                            key@,
                            i as nat,
                        ),
                    decreases entries@.len() - i,
                {
                    if entries[i].0 == key {
                        return Some(&entries[i].1);
                    }
                    i = i + 1;
                }
                None
            },
            _ => None,
        }
    }

    /// Places `tag` under `name` in this compound, replacing what was there.
    /// Only compounds hold named values: `self` must be one.
    pub fn put(&mut self, name: &str, tag: Tag)
        requires
            old(self)@ is Compound,
        ensures
            final(self)@ == TagModel::Compound(
                compound_put(old(self)@->Compound_0, name@, tag@),
            ),
    {
        let key = name.to_owned();
        match self {
            Tag::Compound(entries) => {
                put_entry(entries, key, tag);
            },
            _ => {},
        }
    }

    /// Whether this value is a compound.
    pub fn is_compound(&self) -> (r: bool)
        ensures
            r == self@ is Compound,
    {
        match self {
            Tag::Compound(_) => true,
            _ => false,
        }
    }

    /// The number, when this value is a byte.
    pub fn as_byte(&self) -> (r: Option<i8>)
        ensures
            r == match self@ {
                TagModel::Byte(v) => Some(v),
                _ => None::<i8>,
            },
    {
        match self {
            Tag::Byte(v) => Some(*v),
            _ => None,
        }
    }

    /// The number, when this value is a short.
    pub fn as_short(&self) -> (r: Option<i16>)
        ensures
            r == match self@ {
                TagModel::Short(v) => Some(v),
                _ => None::<i16>,
            },
    {
        match self {
            Tag::Short(v) => Some(*v),
            _ => None,
        }
    }

    /// The number, when this value is an int.
    pub fn as_int(&self) -> (r: Option<i32>)
        ensures
            r == match self@ {
                TagModel::Int(v) => Some(v),
                _ => None::<i32>,
            },
    {
        match self {
            Tag::Int(v) => Some(*v),
            _ => None,
        }
    }

    /// The number, when this value is a long.
    pub fn as_long(&self) -> (r: Option<i64>)
        ensures
            r == match self@ {
                TagModel::Long(v) => Some(v),
                _ => None::<i64>,
            },
    {
        match self {
            Tag::Long(v) => Some(*v),
            _ => None,
        }
    }

    /// The IEEE-754 bits of the number, when this value is a float
    /// (`f32::from_bits` turns them into the number).
    pub fn as_float(&self) -> (r: Option<u32>)
        ensures
            r == match self@ {
                TagModel::Float(v) => Some(v),
                _ => None::<u32>,
            },
    {
        match self {
            Tag::Float(v) => Some(*v),
            _ => None,
        }
    }

    /// The IEEE-754 bits of the number, when this value is a double
    /// (`f64::from_bits` turns them into the number).
    pub fn as_double(&self) -> (r: Option<u64>)
        ensures
            r == match self@ {
                TagModel::Double(v) => Some(v),
                _ => None::<u64>,
            },
    {
        match self {
            Tag::Double(v) => Some(*v),
            _ => None,
        }
    }

    /// The bytes, when this value is a byte array.
    pub fn as_byte_array(&self) -> (r: Option<&[u8]>)
        ensures
            r is Some <==> self@ is ByteArray,
            r matches Some(b) ==> self@ == TagModel::ByteArray(b@),
    {
        match self {
            Tag::ByteArray(v) => Some(v.as_slice()),
            _ => None,
        }
    }

    /// The text, when this value is a string.
    pub fn as_str(&self) -> (r: Option<&str>)
        ensures
            r is Some <==> self@ is Str,
            r matches Some(s) ==> self@ == TagModel::Str(s@),
    {
        match self {
            Tag::String(s) => Some(s.as_str()),
            _ => None,
        }
    }

    /// The elements, when this value is a list.
    pub fn as_list(&self) -> (r: Option<&[Tag]>)
        ensures
            r is Some <==> self@ is List,
            r matches Some(l) ==> self@ == TagModel::List(tags_model(l@)),
    {
        match self {
            Tag::List(v) => Some(v.as_slice()),
            _ => None,
        }
    }

    /// The named entries, when this value is a compound.
    pub fn as_compound(&self) -> (r: Option<&[NamedTag]>)
        ensures
            r is Some <==> self@ is Compound,
            r matches Some(es) ==> self@ == TagModel::Compound(entries_model(es@)),
    {
        match self {
            Tag::Compound(v) => Some(v.as_slice()),
            _ => None,
        }
    }

    /// The numbers, when this value is an int array.
    pub fn as_int_array(&self) -> (r: Option<&[i32]>)
        ensures
            r is Some <==> self@ is IntArray,
            r matches Some(v) ==> self@ == TagModel::IntArray(v@),
    {
        match self {
            Tag::IntArray(v) => Some(v.as_slice()),
            _ => None,
        }
    }

    /// The numbers, when this value is a long array.
    pub fn as_long_array(&self) -> (r: Option<&[i64]>)
        ensures
            r is Some <==> self@ is LongArray,
            r matches Some(v) ==> self@ == TagModel::LongArray(v@),
    {
        match self {
            Tag::LongArray(v) => Some(v.as_slice()),
            _ => None,
        }
    }

    /// Reads the payload of a value of type `id` from the start of `buf`.
    pub fn read_type(id: u8, buf: &[u8]) -> (res: Result<(Tag, usize), NbtError>)
        ensures
            match res {
                Ok((t, p)) => spec_read_tag(id, buf@, 0, 0) == Ok::<(TagModel, int), NbtError>(
                    (t@, p as int),
                ) && p <= buf@.len(),
                Err(e) => spec_read_tag(id, buf@, 0, 0) == Err::<(TagModel, int), NbtError>(e),
            },
    {
        read_type_depth(id, buf, 0, 0)
    }

    /// Reads a document: the payload of a compound from the start of `buf`.
    /// Returns it and the number of bytes it took.
    pub fn read_from(buf: &[u8]) -> (res: Result<(Tag, usize), NbtError>)
        ensures
            match res {
                Ok((t, p)) => spec_read_tag(10, buf@, 0, 0) == Ok::<(TagModel, int), NbtError>(
                    (t@, p as int),
                ) && p <= buf@.len(),
                Err(e) => spec_read_tag(10, buf@, 0, 0) == Err::<(TagModel, int), NbtError>(e),
            },
    {
        Tag::read_type(10, buf)
    }
}

} // verus!

verus! {

impl Clone for NamedTag {
    /// A deep copy.
    fn clone(&self) -> (r: Self)
        ensures
            r.0@ == self.0@,
            r.1@ == self.1@,
        decreases self.1,
    {
        NamedTag(self.0.clone(), self.1.clone())
    }
}

impl Clone for Tag {
    /// A deep copy.
    #[verifier::loop_isolation(false)]
    fn clone(&self) -> (r: Self)
        ensures
            r@ == self@,
        decreases self,
    {
        match self {
            Tag::End => Tag::End,
            Tag::Byte(v) => Tag::Byte(*v),
            Tag::Short(v) => Tag::Short(*v),
            Tag::Int(v) => Tag::Int(*v),
            Tag::Long(v) => Tag::Long(*v),
            Tag::Float(v) => Tag::Float(*v),
            Tag::Double(v) => Tag::Double(*v),
            Tag::ByteArray(v) => Tag::ByteArray(v.clone()),
            Tag::String(s) => Tag::String(s.clone()),
            Tag::List(v) => {
                let mut out: Vec<Tag> = Vec::new();
                let mut i: usize = 0;
                proof {
                    super::model::lemma_tags_model(v@);
                }
                while i < v.len()
                    invariant
                        i <= v@.len(),
                        out@.len() == i,
                        forall|k: int| 0 <= k < i ==> #[trigger] out@[k]@ == v@[k]@,
                    decreases v@.len() - i,
                {
                    out.push(v[i].clone());
                    i = i + 1;
                }
                proof {
                    super::model::lemma_tags_model(out@);
                    assert(tags_model(out@) =~= tags_model(v@));
                }
                Tag::List(out)
            },
            Tag::Compound(v) => {
                let mut out: Vec<NamedTag> = Vec::new();
                let mut i: usize = 0;
                proof {
                    super::model::lemma_entries_model(v@);
                }
                while i < v.len()
                    invariant
                        i <= v@.len(),
                        out@.len() == i,
                        forall|k: int|
                            0 <= k < i ==> #[trigger] out@[k].0@ == v@[k].0@ && out@[k].1@
                                == v@[k].1@,
                    decreases v@.len() - i,
                {
                    let e = &v[i];
                    out.push(NamedTag(e.0.clone(), e.1.clone()));
                    i = i + 1;
                }
                proof {
                    super::model::lemma_entries_model(out@);
                    assert(entries_model(out@) =~= entries_model(v@));
                }
                Tag::Compound(out)
            },
            Tag::IntArray(v) => Tag::IntArray(v.clone()),
            Tag::LongArray(v) => Tag::LongArray(v.clone()),
        }
    }
}

} // verus!
