//! Process memory figures, read from the text the kernel reports in
//! `/proc/self/statm` and `/proc/meminfo`.

use crate::text::chars_of;
use vstd::prelude::*;

verus! {

/// Whether `c` is white space in Unicode's sense (what `char::is_whitespace`
/// tests).
pub open spec fn is_ws(c: char) -> bool {
    ||| '\u{9}' <= c <= '\u{d}'
    ||| c == ' '
    ||| c == '\u{85}'
    ||| c == '\u{a0}'
    ||| c == '\u{1680}'
    ||| '\u{2000}' <= c <= '\u{200a}'
    ||| c == '\u{2028}'
    ||| c == '\u{2029}'
    ||| c == '\u{202f}'
    ||| c == '\u{205f}'
    ||| c == '\u{3000}'
}

/// Whether `c` is white space in Unicode's sense.
pub fn is_whitespace(c: char) -> (r: bool)
    ensures
        r == is_ws(c),
{
    ('\u{9}' <= c && c <= '\u{d}') || c == ' ' || c == '\u{85}' || c == '\u{a0}' || c
        == '\u{1680}' || ('\u{2000}' <= c && c <= '\u{200a}') || c == '\u{2028}' || c
        == '\u{2029}' || c == '\u{202f}' || c == '\u{205f}' || c == '\u{3000}'
}

/// Where the word starting at `i` ends: the first white space at or after
/// `i`, or the end of `s`.
pub open spec fn word_end(s: Seq<char>, i: int) -> int
    decreases s.len() - i,
{
    if i < 0 || i >= s.len() || is_ws(s[i]) {
        i
    } else {
        word_end(s, i + 1)
    }
}

/// `word_end` lies between `i` and the end, with no white space before it.
pub proof fn lemma_word_end(s: Seq<char>, i: int)
    requires
        0 <= i <= s.len(),
    ensures
        i <= word_end(s, i) <= s.len(),
        forall|k: int| i <= k < word_end(s, i) ==> !is_ws(#[trigger] s[k]),
        word_end(s, i) < s.len() ==> is_ws(s[word_end(s, i)]),
    decreases s.len() - i,
{
    if i < s.len() && !is_ws(s[i]) {
        lemma_word_end(s, i + 1);
    }
}

/// The `n`-th (from 0) white-space-separated word of `s` from position `i`
/// on.
pub open spec fn nth_word(s: Seq<char>, i: int, n: nat) -> Option<Seq<char>>
    decreases s.len() - i,
{
    if i < 0 || i >= s.len() {
        None
    } else if is_ws(s[i]) {
        nth_word(s, i + 1, n)
    } else {
        proof {
            lemma_word_end(s, i + 1);
        }
        let e = word_end(s, i);
        if n == 0 {
            Some(s.subrange(i, e))
        } else {
            nth_word(s, e, (n - 1) as nat)
        }
    }
}

/// The value of the decimal digits `d`.
pub open spec fn digits_value(d: Seq<char>) -> nat
    decreases d.len(),
{
    if d.len() == 0 {
        0
    } else {
        digits_value(d.drop_last()) * 10 + ((d.last() as int - 48) as nat)
    }
}

/// Whether every character of `d` is an ASCII digit.
pub open spec fn all_digits(d: Seq<char>) -> bool {
    forall|i: int| 0 <= i < d.len() ==> '0' <= #[trigger] d[i] <= '9'
}

/// What `u64::from_str` makes of `s`: an optional `+`, then at least one
/// ASCII digit and nothing else, with a value that fits.
pub open spec fn spec_parse_u64(s: Seq<char>) -> Option<u64> {
    let d = if s.len() > 0 && s[0] == '+' {
        s.subrange(1, s.len() as int)
    } else {
        s
    };
    if d.len() > 0 && all_digits(d) && digits_value(d) <= u64::MAX {
        Some(digits_value(d) as u64)
    } else {
        None
    }
}

/// The value of a prefix of digits is at most the value of the whole.
pub proof fn lemma_digits_value_prefix(d: Seq<char>, k: int)
    requires
        0 <= k <= d.len(),
        all_digits(d),
    ensures
        digits_value(d.subrange(0, k)) <= digits_value(d),
    decreases d.len() - k,
{
    if k < d.len() {
        lemma_digits_value_prefix(d, k + 1);
        let p = d.subrange(0, k + 1);
        assert(p.drop_last() =~= d.subrange(0, k));
        assert('0' <= p.last() <= '9');
    } else {
        assert(d.subrange(0, k) =~= d);
    }
}

/// Reads a `u64` from `cs[a..b]` as `u64::from_str` does.
#[verifier::loop_isolation(false)]
pub fn parse_u64(cs: &Vec<char>, a: usize, b: usize) -> (r: Option<u64>)
    requires
        a <= b <= cs@.len(),
    ensures
        r == spec_parse_u64(cs@.subrange(a as int, b as int)),
{
    let ghost s = cs@.subrange(a as int, b as int);
    let start = if a < b && cs[a] == '+' {
        a + 1
    } else {
        a
    };
    let ghost d = cs@.subrange(start as int, b as int);
    assert(d =~= (if s.len() > 0 && s[0] == '+' {
        s.subrange(1, s.len() as int)
    } else {
        s
    }));
    if start >= b {
        return None;
    }
    let mut acc: u64 = 0;
    let mut i = start;
    while i < b
        invariant
            start <= i <= b <= cs@.len(),
            d == cs@.subrange(start as int, b as int),
            all_digits(cs@.subrange(start as int, i as int)),
            acc == digits_value(cs@.subrange(start as int, i as int)),
        decreases b - i,
    {
        let c = cs[i];
        if !('0' <= c && c <= '9') {
            assert(d[i - start] == c);
            return None;
        }
        let digit = (c as u32 - 48) as u64;
        let ghost prefix = cs@.subrange(start as int, i + 1);
        assert(prefix.drop_last() =~= cs@.subrange(start as int, i as int));
        assert(all_digits(prefix));
        match acc.checked_mul(10) {
            Some(m) => match m.checked_add(digit) {
                Some(v) => {
                    acc = v;
                },
                None => {
                    proof {
                        if all_digits(d) {
                            assert(prefix =~= d.subrange(0, i + 1 - start));
                            lemma_digits_value_prefix(d, i + 1 - start);
                        }
                    }
                    return None;
                },
            },
            None => {
                proof {
                    if all_digits(d) {
                        assert(prefix =~= d.subrange(0, i + 1 - start));
                        lemma_digits_value_prefix(d, i + 1 - start);
                    }
                }
                return None;
            },
        }
        i = i + 1;
    }
    assert(cs@.subrange(start as int, i as int) =~= d);
    Some(acc)
}

/// Finds the `n`-th (from 0) white-space-separated word of `cs` from
/// position `from` on: where it starts and ends.
#[verifier::loop_isolation(false)]
pub fn nth_word_range(cs: &Vec<char>, from: usize, n: usize) -> (r: Option<(usize, usize)>)
    requires
        from <= cs@.len(),
    ensures
        match r {
            Some((a, b)) => a <= b <= cs@.len() && nth_word(cs@, from as int, n as nat) == Some(
                cs@.subrange(a as int, b as int),
            ),
            None => nth_word(cs@, from as int, n as nat) is None,
        },
{
    let mut i = from;
    let mut left = n;
    while i < cs.len()
        invariant
            from <= i <= cs@.len(),
            nth_word(cs@, from as int, n as nat) == nth_word(cs@, i as int, left as nat),
        decreases cs@.len() - i,
    {
        if is_whitespace(cs[i]) {
            i = i + 1;
        } else {
            let mut e = i + 1;
            proof {
                lemma_word_end(cs@, i + 1);
            }
            while e < cs.len() && !is_whitespace(cs[e])
                invariant
                    i < e <= cs@.len(),
                    word_end(cs@, i as int) == word_end(cs@, e as int),
                decreases cs@.len() - e,
            {
                e = e + 1;
            }
            if left == 0 {
                return Some((i, e));
            }
            left = left - 1;
            i = e;
        }
    }
    None
}

/// Bytes of resident memory that `/proc/self/statm` reports: its second
/// field counts pages of 4096 bytes; 0 when that field is missing or not a
/// number. The product wraps around past `u64::MAX`.
pub open spec fn spec_memory_used(statm: Seq<char>) -> u64 {
    match nth_word(statm, 0, 1) {
        Some(w) => match spec_parse_u64(w) {
            Some(pages) => ((pages as int * 4096) % 0x1_0000_0000_0000_0000) as u64,
            None => 0,
        },
        None => 0,
    }
}

/// Resident memory of the process in bytes, from the text of
/// `/proc/self/statm`.
pub fn memory_used(statm: &str) -> (r: u64)
    ensures
        r == spec_memory_used(statm@),
{
    let cs = chars_of(statm);
    match nth_word_range(&cs, 0, 1) {
        Some((a, b)) => match parse_u64(&cs, a, b) {
            Some(pages) => pages.wrapping_mul(4096),
            None => 0,
        },
        None => 0,
    }
}

} // verus!

verus! {

/// Where the line starting at `i` ends: the first newline at or after `i`,
/// or the end of `s`.
pub open spec fn line_end(s: Seq<char>, i: int) -> int
    decreases s.len() - i,
{
    if i < 0 || i >= s.len() || s[i] == '\n' {
        i
    } else {
        line_end(s, i + 1)
    }
}

/// `line_end` lies between `i` and the end, with no newline before it.
pub proof fn lemma_line_end(s: Seq<char>, i: int)
    requires
        0 <= i <= s.len(),
    ensures
        i <= line_end(s, i) <= s.len(),
        line_end(s, i) < s.len() ==> s[line_end(s, i)] == '\n',
    decreases s.len() - i,
{
    if i < s.len() && s[i] != '\n' {
        lemma_line_end(s, i + 1);
    }
}

/// The label of the total-memory line.
pub open spec fn mem_total_label() -> Seq<char> {
    seq!['M', 'e', 'm', 'T', 'o', 't', 'a', 'l', ':']
}

/// Bytes of memory a line of `/proc/meminfo` reports, when it is the
/// `MemTotal:` line and its first word after the label is a number of
/// kilobytes (the product wraps around past `u64::MAX`).
pub open spec fn meminfo_line_value(line: Seq<char>) -> Option<u64> {
    if line.len() >= 9 && line.subrange(0, 9) == mem_total_label() {
        match nth_word(line.subrange(9, line.len() as int), 0, 0) {
            Some(w) => match spec_parse_u64(w) {
                Some(kb) => Some(((kb as int * 1024) % 0x1_0000_0000_0000_0000) as u64),
                None => None,
            },
            None => None,
        }
    } else {
        None
    }
}

/// The value of the first line, from position `i` on, that reports total
/// memory.
pub open spec fn meminfo_scan(s: Seq<char>, i: int) -> Option<u64>
    decreases s.len() - i,
{
    if i < 0 || i > s.len() {
        None
    } else {
        proof {
            lemma_line_end(s, i);
        }
        let e = line_end(s, i);
        match meminfo_line_value(s.subrange(i, e)) {
            Some(v) => Some(v),
            None => if e >= s.len() {
                None
            } else {
                meminfo_scan(s, e + 1)
            },
        }
    }
}

/// Total physical memory in bytes that `/proc/meminfo` reports; 0 when no
/// line reports it.
pub open spec fn spec_memory_total(meminfo: Seq<char>) -> u64 {
    match meminfo_scan(meminfo, 0) {
        Some(v) => v,
        None => 0,
    }
}

/// The characters `cs[a..b]`.
fn sub_chars(cs: &Vec<char>, a: usize, b: usize) -> (v: Vec<char>)
    requires
        a <= b <= cs@.len(),
    ensures
        v@ == cs@.subrange(a as int, b as int),
{
    let mut v: Vec<char> = Vec::new();
    let mut i = a;
    while i < b
        invariant
            a <= i <= b <= cs@.len(),
            v@ == cs@.subrange(a as int, i as int),
        decreases b - i,
    {
        v.push(cs[i]);
        i = i + 1;
        assert(v@ =~= cs@.subrange(a as int, i as int));
    }
    v
}

/// What one line reports, as `meminfo_line_value` says.
fn line_value(line: &Vec<char>) -> (r: Option<u64>)
    ensures
        r == meminfo_line_value(line@),
{
    if line.len() < 9 {
        return None;
    }
    let label = line[0] == 'M' && line[1] == 'e' && line[2] == 'm' && line[3] == 'T' && line[4]
        == 'o' && line[5] == 't' && line[6] == 'a' && line[7] == 'l' && line[8] == ':';
    proof {
        let p = line@.subrange(0, 9);
        if label {
            assert(p =~= mem_total_label());
        } else {
            assert(p[0] == line@[0] && p[1] == line@[1] && p[2] == line@[2] && p[3] == line@[3]
                && p[4] == line@[4] && p[5] == line@[5] && p[6] == line@[6] && p[7] == line@[7]
                && p[8] == line@[8]);
            assert(p != mem_total_label());
        }
    }
    if !label {
        return None;
    }
    let rest = sub_chars(line, 9, line.len());
    match nth_word_range(&rest, 0, 0) {
        Some((a, b)) => match parse_u64(&rest, a, b) {
            Some(kb) => Some(kb.wrapping_mul(1024)),
            None => None,
        },
        None => None,
    }
}

/// Total physical memory in bytes, from the text of `/proc/meminfo`: the
/// first `MemTotal:` line with a number of kilobytes gives it; 0 when there
/// is none.
#[verifier::loop_isolation(false)]
pub fn memory_total(meminfo: &str) -> (r: u64)
    ensures
        r == spec_memory_total(meminfo@),
{
    let cs = chars_of(meminfo);
    let mut i: usize = 0;
    loop
        invariant
            i <= cs@.len(),
            cs@ == meminfo@,
            meminfo_scan(cs@, 0) == meminfo_scan(cs@, i as int),
        decreases cs@.len() - i,
    {
        let mut e = i;
        proof {
            lemma_line_end(cs@, i as int);
        }
        while e < cs.len() && cs[e] != '\n'
            invariant
                i <= e <= cs@.len(),
                line_end(cs@, i as int) == line_end(cs@, e as int),
            decreases cs@.len() - e,
        {
            e = e + 1;
        }
        let line = sub_chars(&cs, i, e);
        match line_value(&line) {
            Some(v) => {
                return v;
            },
            None => {
                if e >= cs.len() {
                    return 0;
                }
                i = e + 1;
            },
        }
    }
}

} // verus!

verus! {

/// The last position at or before `k` of `)` in `s`; `-1` when there is
/// none.
pub open spec fn last_paren(s: Seq<char>, k: int) -> int
    decreases k + 1,
{
    if k < 0 {
        -1
    } else if k < s.len() && s[k] == ')' {
        k
    } else {
        last_paren(s, k - 1)
    }
}

/// Whether the text of `/proc/self/stat` can be cut after its command name:
/// there is no `)` at all, or the last one is followed by a one-byte
/// character.
pub open spec fn stat_cuttable(stat: Seq<char>) -> bool {
    let k = last_paren(stat, stat.len() - 1);
    k < 0 || (k + 1 < stat.len() && (stat[k + 1] as u32) < 128)
}

/// The user and system CPU times, in clock ticks, that `/proc/self/stat`
/// reports: the 12th and 13th fields after the state field, counting from
/// the character two past the last `)` (the command name in parentheses
/// may hold spaces).
pub open spec fn spec_cpu_ticks(stat: Seq<char>) -> Option<(u64, u64)> {
    let k = last_paren(stat, stat.len() - 1);
    if k < 0 {
        None
    } else {
        let rest = stat.subrange(k + 2, stat.len() as int);
        match (nth_word(rest, 0, 11), nth_word(rest, 0, 12)) {
            (Some(u), Some(s)) => match (spec_parse_u64(u), spec_parse_u64(s)) {
                (Some(utime), Some(stime)) => Some((utime, stime)),
                _ => None,
            },
            _ => None,
        }
    }
}

/// The user and system CPU times of the process, in clock ticks, from the
/// text of `/proc/self/stat`.
pub fn cpu_ticks(stat: &str) -> (r: Option<(u64, u64)>)
    requires
        stat_cuttable(stat@),
    ensures
        r == spec_cpu_ticks(stat@),
{
    let cs = chars_of(stat);
    let n = cs.len();
    let mut k: usize = n;
    let mut found = false;
    while k > 0
        invariant_except_break
            !found,
        invariant
            cs@ == stat@,
            n == cs@.len(),
            k <= n,
            last_paren(stat@, n - 1) == last_paren(stat@, k - 1),
        ensures
            found ==> 0 < k <= n && last_paren(stat@, n - 1) == k - 1,
            !found ==> last_paren(stat@, n - 1) == -1,
        decreases k,
    {
        if cs[k - 1] == ')' {
            found = true;
            break;
        }
        k = k - 1;
    }
    if !found {
        return None;
    }
    // `k - 1` holds the `)`; the text resumes two characters later
    let rest = sub_chars(&cs, k + 1, n);
    let u = match nth_word_range(&rest, 0, 11) {
        Some((a, b)) => parse_u64(&rest, a, b),
        None => {
            assert(rest@ =~= stat@.subrange(k + 1, n as int));
            return None;
        },
    };
    let s = match nth_word_range(&rest, 0, 12) {
        Some((a, b)) => parse_u64(&rest, a, b),
        None => {
            assert(rest@ =~= stat@.subrange(k + 1, n as int));
            return None;
        },
    };
    assert(rest@ =~= stat@.subrange(k + 1, n as int));
    match (u, s) {
        (Some(utime), Some(stime)) => Some((utime, stime)),
        _ => None,
    }
}

} // verus!
