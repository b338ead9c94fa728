//! The mathematical model of NBT values.

use super::{NamedTag, Tag};
use vstd::prelude::*;

verus! {

broadcast use vstd::std_specs::vec::group_vec_axioms;

/// An NBT value as mathematics sees it.
pub enum TagModel {
    End,
    Byte(i8),
    Short(i16),
    Int(i32),
    Long(i64),
    Float(u32),
    Double(u64),
    ByteArray(Seq<u8>),
    Str(Seq<char>),
    List(Seq<TagModel>),
    Compound(Seq<(Seq<char>, TagModel)>),
    IntArray(Seq<i32>),
    LongArray(Seq<i64>),
}

/// The model of a value.
pub open spec fn tag_model(t: Tag) -> TagModel
    decreases t,
{
    match t {
        Tag::End => TagModel::End,
        Tag::Byte(v) => TagModel::Byte(v),
        Tag::Short(v) => TagModel::Short(v),
        Tag::Int(v) => TagModel::Int(v),
        Tag::Long(v) => TagModel::Long(v),
        Tag::Float(v) => TagModel::Float(v),
        Tag::Double(v) => TagModel::Double(v),
        Tag::ByteArray(v) => TagModel::ByteArray(v@),
        Tag::String(v) => TagModel::Str(v@),
        Tag::List(v) => TagModel::List(tags_model(v@)),
        Tag::Compound(v) => TagModel::Compound(entries_model(v@)),
        Tag::IntArray(v) => TagModel::IntArray(v@),
        Tag::LongArray(v) => TagModel::LongArray(v@),
    }
}

/// The models of a sequence of values.
pub open spec fn tags_model(s: Seq<Tag>) -> Seq<TagModel>
    decreases s,
{
    if s.len() == 0 {
        Seq::empty()
    } else {
        seq![tag_model(s[0])] + tags_model(s.subrange(1, s.len() as int))
    }
}

/// The models of a sequence of named values.
pub open spec fn entries_model(s: Seq<NamedTag>) -> Seq<(Seq<char>, TagModel)>
    decreases s,
{
    if s.len() == 0 {
        Seq::empty()
    } else {
        seq![(s[0].0@, tag_model(s[0].1))] + entries_model(s.subrange(1, s.len() as int))
    }
}

impl View for Tag {
    type V = TagModel;

    open spec fn view(&self) -> TagModel {
        tag_model(*self)
    }
}

} // verus!

verus! {

/// `tags_model` keeps length and maps each value to its model.
pub proof fn lemma_tags_model(s: Seq<Tag>)
    ensures
        tags_model(s).len() == s.len(),
        forall|i: int| 0 <= i < s.len() ==> #[trigger] tags_model(s)[i] == s[i]@,
    decreases s.len(),
{
    if s.len() > 0 {
        let rest = s.subrange(1, s.len() as int);
        lemma_tags_model(rest);
        assert forall|i: int| 0 <= i < s.len() implies #[trigger] tags_model(s)[i] == s[i]@ by {
            if i > 0 {
                assert(rest[i - 1] == s[i]);
            }
        }
    }
}

/// `entries_model` keeps length and maps each entry to its name and model.
pub proof fn lemma_entries_model(s: Seq<NamedTag>)
    ensures
        entries_model(s).len() == s.len(),
        forall|i: int|
            0 <= i < s.len() ==> #[trigger] entries_model(s)[i] == (s[i].0@, s[i].1@),
    decreases s.len(),
{
    if s.len() > 0 {
        let rest = s.subrange(1, s.len() as int);
        lemma_entries_model(rest);
        assert forall|i: int| 0 <= i < s.len() implies #[trigger] entries_model(s)[i] == (
        s[i].0@,
        s[i].1@,
        ) by {
            if i > 0 {
                assert(rest[i - 1] == s[i]);
            }
        }
    }
}

} // verus!

verus! {

/// Appending a value appends its model.
pub proof fn lemma_tags_model_push(s: Seq<Tag>, t: Tag)
    ensures
        tags_model(s.push(t)) == tags_model(s).push(t@),
{
    lemma_tags_model(s);
    lemma_tags_model(s.push(t));
    assert(tags_model(s.push(t)) =~= tags_model(s).push(t@));
}

} // verus!
