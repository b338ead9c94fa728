//! What a read depends on: the reader never moves backwards, and a value
//! that ends before the end of its input reads the same from any input that
//! agrees with it up to that end. This is what lets a stream be read one
//! piece at a time.

use super::format::{
    spec_read_entries, spec_read_list, spec_read_string, spec_read_tag,
    spec_sanitize_array_len,
};
use super::model::TagModel;
use super::read::copy_range;
use super::{NbtError, Tag};
use crate::bytes::{be_u16, be_u32, be_u64};
use vstd::prelude::*;

verus! {

/// `s` and `s2` hold the same bytes below `p`.
pub open spec fn agree_below(s: Seq<u8>, s2: Seq<u8>, p: int) -> bool {
    forall|k: int| 0 <= k < p ==> #[trigger] s[k] == s2[k]
}

/// A string read ends after its start.
pub proof fn lemma_string_end_monotone(s: Seq<u8>, pos: int)
    ensures
        spec_read_string(s, pos) matches Ok((_, p)) ==> pos + 2 <= p <= s.len(),
{
}

/// A value read ends at or after where it starts.
pub proof fn lemma_tag_end_monotone(id: u8, s: Seq<u8>, pos: int, depth: int)
    ensures
        spec_read_tag(id, s, pos, depth) matches Ok((_, p)) ==> pos <= p,
    decreases 513 - depth, 1int, 0int,
{
    if depth <= 512 {
        if id == 9 && pos + 5 <= s.len() {
            if let Ok(len) = spec_sanitize_array_len(be_u32(s, pos + 1) as i32) {
                lemma_list_end_monotone(s[pos], s, pos + 5, depth + 1, len as int, seq![]);
            }
        } else if id == 10 {
            lemma_entries_end_monotone(s, pos, depth + 1, 0, seq![]);
        } else if id == 8 {
            lemma_string_end_monotone(s, pos);
        }
    }
}

/// The rest of a list read ends at or after where it starts.
pub proof fn lemma_list_end_monotone(
    ty: u8,
    s: Seq<u8>,
    pos: int,
    depth: int,
    n: int,
    acc: Seq<TagModel>,
)
    ensures
        spec_read_list(ty, s, pos, depth, n, acc) matches Ok((_, p)) ==> pos <= p,
    decreases 514 - depth, 0int, n,
{
    if n > 0 && depth <= 512 {
        lemma_tag_end_monotone(ty, s, pos, depth);
        if let Ok((t, p1)) = spec_read_tag(ty, s, pos, depth) {
            lemma_list_end_monotone(ty, s, p1, depth, n - 1, acc.push(t));
        }
    }
}

/// The rest of a compound read ends after where it starts.
pub proof fn lemma_entries_end_monotone(
    s: Seq<u8>,
    pos: int,
    depth: int,
    count: int,
    acc: Seq<(Seq<char>, TagModel)>,
)
    ensures
        spec_read_entries(s, pos, depth, count, acc) matches Ok((_, p)) ==> pos < p,
    decreases 514 - depth, 0int, 65537 - count,
{
    if pos + 1 <= s.len() && s[pos] != 0 && count + 1 <= 65536 {
        lemma_string_end_monotone(s, pos + 1);
        if let Ok((name, p1)) = spec_read_string(s, pos + 1) {
            if depth <= 512 {
                lemma_tag_end_monotone(s[pos], s, p1, depth);
                if let Ok((v, p2)) = spec_read_tag(s[pos], s, p1, depth) {
                    lemma_entries_end_monotone(
                        s,
                        p2,
                        depth,
                        count + 1,
                        super::format::compound_put(acc, name, v),
                    );
                }
            }
        }
    }
}

/// A string that ends before the end of its input reads the same from any
/// longer input that agrees up to its end.
pub proof fn lemma_string_prefix_stable(s: Seq<u8>, s2: Seq<u8>, pos: int)
    requires
        0 <= pos,
        spec_read_string(s, pos) matches Ok((_, p)) && p < s.len() && p < s2.len() && agree_below(
            s,
            s2,
            p,
        ),
    ensures
        spec_read_string(s2, pos) == spec_read_string(s, pos),
{
    let p = spec_read_string(s, pos)->Ok_0.1;
    assert(s[pos] == s2[pos]);
    assert(s[pos + 1] == s2[pos + 1]);
    assert(be_u16(s, pos) == be_u16(s2, pos));
    let start = pos + 2;
    assert(s.subrange(start, p) =~= s2.subrange(start, p));
}

/// A value that ends before the end of its input reads the same, to the
/// same end, from any input that holds the same bytes before that end and
/// goes on past it.
pub proof fn law_read_prefix_stable(id: u8, s: Seq<u8>, s2: Seq<u8>, pos: int, depth: int)
    requires
        0 <= pos,
        spec_read_tag(id, s, pos, depth) matches Ok((_, p)) && p < s.len() && p < s2.len()
            && agree_below(s, s2, p),
    ensures
        spec_read_tag(id, s2, pos, depth) == spec_read_tag(id, s, pos, depth),
    decreases 513 - depth, 1int, 0int,
{
    let p = spec_read_tag(id, s, pos, depth)->Ok_0.1;
    if id == 1 {
        assert(s[pos] == s2[pos]);
    } else if id == 2 {
        assert(s[pos] == s2[pos] && s[pos + 1] == s2[pos + 1]);
    } else if id == 3 || id == 5 {
        assert forall|k: int| pos <= k < pos + 4 implies s[k] == s2[k] by {}
        assert(be_u32(s, pos) == be_u32(s2, pos));
    } else if id == 4 || id == 6 {
        assert forall|k: int| pos <= k < pos + 8 implies s[k] == s2[k] by {}
        assert(be_u32(s, pos) == be_u32(s2, pos));
        assert(be_u32(s, pos + 4) == be_u32(s2, pos + 4));
        assert(be_u64(s, pos) == be_u64(s2, pos));
    } else if id == 7 || id == 11 || id == 12 {
        assert forall|k: int| pos <= k < pos + 4 implies s[k] == s2[k] by {}
        assert(be_u32(s, pos) == be_u32(s2, pos));
        let len = spec_sanitize_array_len(be_u32(s, pos) as i32)->Ok_0;
        let start = pos + 4;
        if id == 7 {
            assert(s.subrange(start, p) =~= s2.subrange(start, p));
        } else if id == 11 {
            let a = Seq::new(len as nat, |i: int| be_u32(s, start + 4 * i) as i32);
            let b = Seq::new(len as nat, |i: int| be_u32(s2, start + 4 * i) as i32);
            assert forall|i: int| 0 <= i < len implies #[trigger] a[i] == b[i] by {
                let q = start + 4 * i;
                assert(s[q] == s2[q]);
                assert(s[q + 1] == s2[q + 1]);
                assert(s[q + 2] == s2[q + 2]);
                assert(s[q + 3] == s2[q + 3]);
            }
            assert(a =~= b);
        } else {
            let a = Seq::new(len as nat, |i: int| be_u64(s, start + 8 * i) as i64);
            let b = Seq::new(len as nat, |i: int| be_u64(s2, start + 8 * i) as i64);
            assert forall|i: int| 0 <= i < len implies #[trigger] a[i] == b[i] by {
                let q = start + 8 * i;
                assert(s[q] == s2[q]);
                assert(s[q + 1] == s2[q + 1]);
                assert(s[q + 2] == s2[q + 2]);
                assert(s[q + 3] == s2[q + 3]);
                assert(s[q + 4] == s2[q + 4]);
                assert(s[q + 5] == s2[q + 5]);
                assert(s[q + 6] == s2[q + 6]);
                assert(s[q + 7] == s2[q + 7]);
                assert(be_u32(s, q) == be_u32(s2, q));
                assert(be_u32(s, q + 4) == be_u32(s2, q + 4));
            }
            assert(a =~= b);
        }
    } else if id == 8 {
        lemma_string_prefix_stable(s, s2, pos);
    } else if id == 9 {
        let len = spec_sanitize_array_len(be_u32(s, pos + 1) as i32)->Ok_0;
        lemma_list_end_monotone(s[pos], s, pos + 5, depth + 1, len as int, seq![]);
        assert forall|k: int| pos <= k < pos + 5 implies s[k] == s2[k] by {}
        assert(s[pos] == s2[pos]);
        assert(be_u32(s, pos + 1) == be_u32(s2, pos + 1));
        lemma_list_prefix_stable(s[pos], s, s2, pos + 5, depth + 1, len as int, seq![]);
    } else if id == 10 {
        lemma_entries_prefix_stable(s, s2, pos, depth + 1, 0, seq![]);
    }
}

/// The rest of a list that ends before the end of its input reads the same
/// from any input that agrees up to its end.
pub proof fn lemma_list_prefix_stable(
    ty: u8,
    s: Seq<u8>,
    s2: Seq<u8>,
    pos: int,
    depth: int,
    n: int,
    acc: Seq<TagModel>,
)
    requires
        0 <= pos,
        spec_read_list(ty, s, pos, depth, n, acc) matches Ok((_, p)) && p < s.len() && p
            < s2.len() && agree_below(s, s2, p),
    ensures
        spec_read_list(ty, s2, pos, depth, n, acc) == spec_read_list(ty, s, pos, depth, n, acc),
    decreases 514 - depth, 0int, n,
{
    if n > 0 && depth <= 512 {
        let p = spec_read_list(ty, s, pos, depth, n, acc)->Ok_0.1;
        let (t, p1) = spec_read_tag(ty, s, pos, depth)->Ok_0;
        lemma_tag_end_monotone(ty, s, pos, depth);
        lemma_list_end_monotone(ty, s, p1, depth, n - 1, acc.push(t));
        assert(p1 <= p);
        law_read_prefix_stable(ty, s, s2, pos, depth);
        lemma_list_prefix_stable(ty, s, s2, p1, depth, n - 1, acc.push(t));
    }
}

/// The rest of a compound that ends before the end of its input reads the
/// same from any input that agrees up to its end.
pub proof fn lemma_entries_prefix_stable(
    s: Seq<u8>,
    s2: Seq<u8>,
    pos: int,
    depth: int,
    count: int,
    acc: Seq<(Seq<char>, TagModel)>,
)
    requires
        0 <= pos,
        spec_read_entries(s, pos, depth, count, acc) matches Ok((_, p)) && p < s.len() && p
            < s2.len() && agree_below(s, s2, p),
    ensures
        spec_read_entries(s2, pos, depth, count, acc) == spec_read_entries(
            s,
            pos,
            depth,
            count,
            acc,
        ),
    decreases 514 - depth, 0int, 65537 - count,
{
    let p = spec_read_entries(s, pos, depth, count, acc)->Ok_0.1;
    lemma_entries_end_monotone(s, pos, depth, count, acc);
    assert(s[pos] == s2[pos]);
    if s[pos] != 0 && count + 1 <= 65536 {
        let (name, p1) = spec_read_string(s, pos + 1)->Ok_0;
        let (v, p2) = spec_read_tag(s[pos], s, p1, depth)->Ok_0;
        let acc2 = super::format::compound_put(acc, name, v);
        lemma_tag_end_monotone(s[pos], s, p1, depth);
        lemma_entries_end_monotone(s, p2, depth, count + 1, acc2);
        lemma_string_end_monotone(s, pos + 1);
        lemma_string_prefix_stable(s, s2, pos + 1);
        law_read_prefix_stable(s[pos], s, s2, p1, depth);
        lemma_entries_prefix_stable(s, s2, p2, depth, count + 1, acc2);
    }
}

/// What reading a value from the bytes of a stream read so far gives: the
/// value and how many bytes it took; that more bytes are needed; or an
/// error.
pub enum PrefixRead<T> {
    Done(T, usize),
    NeedMore,
    Failed(NbtError),
}

/// Reads a document from the bytes of a stream read so far (`at_end` when
/// the stream has ended). A document that ends before the bytes do is
/// done. One that ends just where they end is done when the stream has
/// ended, or when one more byte does not change where it ends (a string or
/// array cut short by the end of the bytes would grow); then it is read
/// with that byte, which it does not reach. The end of the bytes inside a
/// document needs more of them, unless the stream has ended. Any other
/// error is final.
pub fn read_from_prefix(data: &[u8], at_end: bool) -> (r: PrefixRead<Tag>)
    ensures
        match r {
            PrefixRead::Done(t, p) => {
                &&& {
                    ||| spec_read_tag(10, data@, 0, 0) == Ok::<(TagModel, int), NbtError>(
                        (t@, p as int),
                    ) && (at_end || p < data@.len())
                    ||| !at_end && p == data@.len() && spec_read_tag(10, data@, 0, 0) is Ok
                        && spec_read_tag(10, data@, 0, 0)->Ok_0.1 == p && spec_read_tag(
                        10,
                        data@.push(0),
                        0,
                        0,
                    ) == Ok::<
                        (TagModel, int),
                        NbtError,
                    >((t@, p as int))
                }
                &&& !at_end ==> forall|s2: Seq<u8>|
                    s2.len() > p && #[trigger] agree_below(data@, s2, p as int) ==> spec_read_tag(
                        10,
                        s2,
                        0,
                        0,
                    ) == Ok::<(TagModel, int), NbtError>((t@, p as int))
            },
            PrefixRead::NeedMore => !at_end && (spec_read_tag(10, data@, 0, 0) == Err::<
                (TagModel, int),
                NbtError,
            >(NbtError::UnexpectedEof) || (spec_read_tag(10, data@, 0, 0) is Ok && spec_read_tag(
                10,
                data@,
                0,
                0,
            )->Ok_0.1 == data@.len() && !(spec_read_tag(10, data@.push(0), 0, 0) is Ok
                && spec_read_tag(10, data@.push(0), 0, 0)->Ok_0.1 == data@.len()))),
            PrefixRead::Failed(e) => spec_read_tag(10, data@, 0, 0) == Err::<
                (TagModel, int),
                NbtError,
            >(e) && (at_end || e != NbtError::UnexpectedEof),
        },
{
    match Tag::read_from(data) {
        Ok((t, p)) => {
            if at_end || p < data.len() {
                proof {
                    if !at_end {
                        assert forall|s2: Seq<u8>|
                            s2.len() > p && #[trigger] agree_below(data@, s2, p as int) implies spec_read_tag(
                            10,
                            s2,
                            0,
                            0,
                        ) == Ok::<(TagModel, int), NbtError>((t@, p as int)) by {
                            law_read_prefix_stable(10, data@, s2, 0, 0);
                        }
                    }
                }
                PrefixRead::Done(t, p)
            } else {
                let mut longer = copy_range(data, 0, data.len());
                longer.push(0);
                proof {
                    assert(data@.subrange(0, data@.len() as int) =~= data@);
                }
                match Tag::read_from(longer.as_slice()) {
                    Ok((t2, q)) => {
                        if q == p {
                            proof {
                                assert forall|s2: Seq<u8>|
                                    s2.len() > p && #[trigger] agree_below(data@, s2, p as int) implies spec_read_tag(
                                    10,
                                    s2,
                                    0,
                                    0,
                                ) == Ok::<(TagModel, int), NbtError>((t2@, p as int)) by {
                                    assert(agree_below(longer@, s2, p as int));
                                    law_read_prefix_stable(10, longer@, s2, 0, 0);
                                }
                            }
                            PrefixRead::Done(t2, q)
                        } else {
                            PrefixRead::NeedMore
                        }
                    },
                    Err(_) => PrefixRead::NeedMore,
                }
            }
        },
        Err(NbtError::UnexpectedEof) => {
            if at_end {
                PrefixRead::Failed(NbtError::UnexpectedEof)
            } else {
                PrefixRead::NeedMore
            }
        },
        Err(e) => PrefixRead::Failed(e),
    }
}

/// Reads a string from the bytes of a stream read so far (`at_end` when
/// the stream has ended), as `read_from_prefix` reads a document: a string
/// cut short by the end of the bytes needs more of them unless the stream
/// has ended.
pub fn read_string_prefix(data: &[u8], at_end: bool) -> (r: PrefixRead<String>)
    ensures
        match r {
            PrefixRead::Done(t, p) => {
                &&& {
                    ||| spec_read_string(data@, 0) == Ok::<(Seq<char>, int), NbtError>(
                        (t@, p as int),
                    ) && (at_end || p < data@.len())
                    ||| !at_end && p == data@.len() && spec_read_string(data@, 0) is Ok
                        && spec_read_string(data@, 0)->Ok_0.1 == p && spec_read_string(data@.push(0), 0) == Ok::<
                        (Seq<char>, int),
                        NbtError,
                    >((t@, p as int))
                }
                &&& !at_end ==> forall|s2: Seq<u8>|
                    s2.len() > p && #[trigger] agree_below(data@, s2, p as int)
                        ==> spec_read_string(s2, 0) == Ok::<(Seq<char>, int), NbtError>(
                        (t@, p as int),
                    )
            },
            PrefixRead::NeedMore => !at_end && (spec_read_string(data@, 0) == Err::<
                (Seq<char>, int),
                NbtError,
            >(NbtError::UnexpectedEof) || (spec_read_string(data@, 0) is Ok && spec_read_string(data@, 0)->Ok_0.1 == data@.len() && !(spec_read_string(data@.push(0), 0) is Ok
                && spec_read_string(data@.push(0), 0)->Ok_0.1 == data@.len()))),
            PrefixRead::Failed(e) => spec_read_string(data@, 0) == Err::<
                (Seq<char>, int),
                NbtError,
            >(e) && (at_end || e != NbtError::UnexpectedEof),
        },
{
    match super::read::read_string(data, 0) {
        Ok((t, p)) => {
            if at_end || p < data.len() {
                proof {
                    if !at_end {
                        assert forall|s2: Seq<u8>|
                            s2.len() > p && #[trigger] agree_below(data@, s2, p as int)
                            implies spec_read_string(s2, 0) == Ok::<(Seq<char>, int), NbtError>(
                            (t@, p as int),
                        ) by {
                            lemma_string_prefix_stable(data@, s2, 0);
                        }
                    }
                }
                PrefixRead::Done(t, p)
            } else {
                let mut longer = copy_range(data, 0, data.len());
                longer.push(0);
                proof {
                    assert(data@.subrange(0, data@.len() as int) =~= data@);
                }
                match super::read::read_string(longer.as_slice(), 0) {
                    Ok((t2, q)) => {
                        if q == p {
                            proof {
                                assert forall|s2: Seq<u8>|
                                    s2.len() > p && #[trigger] agree_below(data@, s2, p as int)
                                    implies spec_read_string(s2, 0) == Ok::<(Seq<char>, int), NbtError>(
                                    (t2@, p as int),
                                ) by {
                                    assert(agree_below(longer@, s2, p as int));
                                    lemma_string_prefix_stable(longer@, s2, 0);
                                }
                            }
                            PrefixRead::Done(t2, q)
                        } else {
                            PrefixRead::NeedMore
                        }
                    },
                    Err(_) => PrefixRead::NeedMore,
                }
            }
        },
        Err(NbtError::UnexpectedEof) => {
            if at_end {
                PrefixRead::Failed(NbtError::UnexpectedEof)
            } else {
                PrefixRead::NeedMore
            }
        },
        Err(e) => PrefixRead::Failed(e),
    }
}

} // verus!
