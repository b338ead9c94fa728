//! The splash texts under the title logo: the lines of the splash files,
//! the fixed order in which they come, and which one shows when.

use rand::seq::SliceRandom;
use vstd::prelude::*;

verus! {

/// The texts of a sequence of strings.
pub open spec fn texts_of(s: Seq<String>) -> Seq<Seq<char>> {
    s.map_values(|x: String| x@)
}

/// `s` without its carriage returns.
pub open spec fn without_cr(s: Seq<char>) -> Seq<char> {
    s.filter(|c: char| c != '\r')
}

/// `t` cut at every line feed: one piece more than it has line feeds, the
/// line feeds themselves dropped.
pub open spec fn newline_pieces(t: Seq<char>) -> Seq<Seq<char>>
    decreases t.len(),
{
    if t.len() == 0 {
        seq![Seq::empty()]
    } else {
        let p = newline_pieces(t.drop_last());
        if t.last() == '\n' {
            p.push(Seq::empty())
        } else {
            p.update(p.len() - 1, p.last().push(t.last()))
        }
    }
}

/// The splash lines of a file's text: its lines (the piece after a final
/// line feed, or of an empty text, is no line), each without carriage
/// returns.
pub open spec fn splash_lines_of(t: Seq<char>) -> Seq<Seq<char>> {
    let p = newline_pieces(t);
    let kept = if p.last().len() == 0 {
        p.drop_last()
    } else {
        p
    };
    kept.map_values(|l: Seq<char>| without_cr(l))
}

/// The splash lines of several files, file after file.
pub open spec fn all_splash_lines(files: Seq<Seq<char>>) -> Seq<Seq<char>>
    decreases files.len(),
{
    if files.len() == 0 {
        Seq::empty()
    } else {
        all_splash_lines(files.drop_last()) + splash_lines_of(files.last())
    }
}

/// The seed of the generator that orders the splash texts, so that every
/// run shows them in the same order.
pub open spec fn spec_splash_seed() -> Seq<u8> {
    seq![45u8, 0, 0, 0, 64, 0, 0, 0, 32, 0, 0, 0, 12, 0, 0, 0]
}

/// The order in which a PCG-32 generator seeded with `seed` shuffles
/// `items`.
pub uninterp spec fn spec_pcg32_shuffle(seed: Seq<u8>, items: Seq<Seq<char>>) -> Seq<Seq<char>>;

/// `SliceRandom::shuffle` of rand, driven by a `rand_pcg::Pcg32` made by
/// `SeedableRng::from_seed(seed)`. The generator is deterministic, so the
/// order that comes out is named `spec_pcg32_shuffle` of the seed and the
/// texts; the shuffle only swaps items, so it keeps each of them. Which
/// order it is, is not stated.
#[verifier::external_body]
fn pcg32_shuffle(items: &mut Vec<String>, seed: [u8; 16])
    ensures
        texts_of(final(items)@) == spec_pcg32_shuffle(seed@, texts_of(old(items)@)),
        final(items)@.len() == old(items)@.len(),
        texts_of(final(items)@).to_multiset() == texts_of(old(items)@).to_multiset(),
{
    let mut rng: rand_pcg::Pcg32 = rand::SeedableRng::from_seed(seed);
    items.shuffle(&mut rng);
}

/// The seed of the splash order.
pub fn splash_seed() -> (s: [u8; 16])
    ensures
        s@ == spec_splash_seed(),
{
    let s: [u8; 16] = [45, 0, 0, 0, 64, 0, 0, 0, 32, 0, 0, 0, 12, 0, 0, 0];
    assert(s@ =~= spec_splash_seed());
    s
}

proof fn lemma_pieces_nonempty(t: Seq<char>)
    ensures
        newline_pieces(t).len() >= 1,
    decreases t.len(),
{
    if t.len() > 0 {
        lemma_pieces_nonempty(t.drop_last());
    }
}

proof fn lemma_without_cr_push(s: Seq<char>, c: char)
    ensures
        without_cr(s.push(c)) == if c == '\r' {
            without_cr(s)
        } else {
            without_cr(s).push(c)
        },
{
    s.lemma_filter_push(c, |x: char| x != '\r');
}

/// The splash lines of a file's text: its lines as `str::lines` cuts
/// them, each without carriage returns.
pub fn splash_lines(text: &str) -> (r: Vec<String>)
    ensures
        texts_of(r@) == splash_lines_of(text@),
{
    let cs = crate::text::chars_of(text);
    let n = cs.len();
    let mut out: Vec<String> = Vec::new();
    let mut cur = String::new();
    let mut raw_empty = true;
    let mut i: usize = 0;
    proof {
        assert(cs@.take(0) =~= Seq::<char>::empty());
        assert(without_cr(Seq::<char>::empty()) =~= Seq::<char>::empty()) by {
            reveal(Seq::filter);
        }
    }
    while i < n
        invariant
            n == cs@.len(),
            cs@ == text@,
            i <= n,
            newline_pieces(cs@.take(i as int)).len() == out@.len() + 1,
            forall|k: int|
                0 <= k < out@.len() ==> #[trigger] out@[k]@ == without_cr(
                    newline_pieces(cs@.take(i as int))[k],
                ),
            cur@ == without_cr(newline_pieces(cs@.take(i as int)).last()),
            raw_empty == (newline_pieces(cs@.take(i as int)).last().len() == 0),
        decreases n - i,
    {
        let c = cs[i];
        proof {
            let t = cs@.take(i as int);
            assert(cs@.take(i + 1).drop_last() =~= t);
            assert(cs@.take(i + 1).last() == c);
            lemma_pieces_nonempty(t);
            lemma_without_cr_push(newline_pieces(t).last(), c);
        }
        if c == '\n' {
            out.push(cur);
            cur = String::new();
            raw_empty = true;
            proof {
                assert(without_cr(Seq::<char>::empty()) =~= Seq::<char>::empty()) by {
                    reveal(Seq::filter);
                }
            }
        } else {
            if c != '\r' {
                crate::text::push_char(&mut cur, c);
            }
            raw_empty = false;
        }
        i = i + 1;
    }
    proof {
        assert(cs@.take(n as int) =~= cs@);
    }
    if !raw_empty {
        out.push(cur);
    }
    proof {
        let p = newline_pieces(text@);
        let kept = if p.last().len() == 0 {
            p.drop_last()
        } else {
            p
        };
        assert(texts_of(out@) =~= kept.map_values(|l: Seq<char>| without_cr(l)));
    }
    out
}

/// The splash texts of the given files in the order in which they show:
/// every line of every file, file after file, then shuffled by a generator
/// with a fixed seed.
pub fn splash_texts(files: &[String]) -> (r: Vec<String>)
    ensures
        texts_of(r@) == spec_pcg32_shuffle(spec_splash_seed(), all_splash_lines(texts_of(files@))),
        texts_of(r@).to_multiset() == all_splash_lines(texts_of(files@)).to_multiset(),
{
    let mut out: Vec<String> = Vec::new();
    let mut j: usize = 0;
    while j < files.len()
        invariant
            j <= files@.len(),
            texts_of(out@) == all_splash_lines(texts_of(files@.take(j as int))),
        decreases files@.len() - j,
    {
        let mut lines = splash_lines(files[j].as_str());
        proof {
            assert(texts_of(files@.take(j + 1)).drop_last() =~= texts_of(files@.take(j as int)));
            assert(texts_of(files@.take(j + 1)).last() == files@[j as int]@);
        }
        let ghost before = out@;
        out.append(&mut lines);
        proof {
            assert(texts_of(out@) =~= texts_of(before) + splash_lines_of(files@[j as int]@));
        }
        j = j + 1;
    }
    proof {
        assert(files@.take(files@.len() as int) =~= files@);
    }
    pcg32_shuffle(&mut out, splash_seed());
    out
}

/// Which splash text shows `elapsed_secs` seconds after the logo appeared:
/// each shows for 15 seconds, in turn.
pub fn splash_index(elapsed_secs: u64, count: usize) -> (r: usize)
    requires
        count > 0,
    ensures
        r == (elapsed_secs / 15) % (count as u64),
        r < count,
{
    ((elapsed_secs / 15) % (count as u64)) as usize
}

} // verus!
