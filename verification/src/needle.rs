//! Needles: the patterns the expect engine drives against a byte buffer.
//!
//! A needle is checked against the current lookahead buffer together with an
//! end-of-file flag; it reports every match as a half-open byte range
//! `(start, end)` into that buffer.

use vstd::multiset::Multiset;
use vstd::prelude::*;

use crate::error::Error;

verus! {

/// A pattern for the expect engine.
#[derive(Debug, PartialEq, Eq)]
pub enum Needle {
    /// Every occurrence of this literal byte string.
    Bytes(Vec<u8>),
    /// Every non-overlapping match of this regular expression.
    Regex(String),
    /// The first `n` bytes of the buffer, if the buffer holds at least `n`.
    NBytes(usize),
    /// The whole buffer, once end-of-file has been observed.
    Eof,
    /// The union of the matches of each sub-needle, ordered by start;
    /// ties keep the declaration order of the sub-needles.
    Any(Vec<Needle>),
}

/// `pat` occurs in `hay` at position `i`.
pub open spec fn occurs_at(hay: Seq<u8>, pat: Seq<u8>, i: int) -> bool {
    &&& 0 <= i
    &&& i + pat.len() <= hay.len()
    &&& hay.subrange(i, i + pat.len() as int) == pat
}

/// All occurrences of `pat` in `hay` starting at position `i` or later,
/// as `(start, end)` ranges in increasing order of start.
pub open spec fn occurrences_from(hay: Seq<u8>, pat: Seq<u8>, i: int) -> Seq<(int, int)>
    decreases hay.len() + 1 - i,
{
    if i < 0 || i + pat.len() > hay.len() {
        Seq::empty()
    } else if occurs_at(hay, pat, i) {
        seq![(i, i + pat.len() as int)] + occurrences_from(hay, pat, i + 1)
    } else {
        occurrences_from(hay, pat, i + 1)
    }
}

/// The matches of a literal byte-string needle: every occurrence, in order.
pub open spec fn bytes_found(hay: Seq<u8>, pat: Seq<u8>) -> Seq<(int, int)> {
    occurrences_from(hay, pat, 0)
}

/// The `(usize, usize)` ranges of an executable result, as mathematical pairs.
pub open spec fn ranges_view(v: Seq<(usize, usize)>) -> Seq<(int, int)> {
    v.map_values(|p: (usize, usize)| (p.0 as int, p.1 as int))
}

/// Every range lies inside a buffer of length `n`, with start before end.
pub open spec fn ranges_wf(rs: Seq<(int, int)>, n: int) -> bool {
    forall|k: int| 0 <= k < rs.len() ==> 0 <= #[trigger] rs[k].0 <= rs[k].1 <= n
}

/// The ranges are sorted by their start offset.
pub open spec fn sorted_by_start(rs: Seq<(int, int)>) -> bool {
    forall|j: int, k: int| 0 <= j <= k < rs.len() ==> #[trigger] rs[j].0 <= #[trigger] rs[k].0
}

/// Every element's start offset is at least `b`.
pub open spec fn starts_at_least(rs: Seq<(int, int)>, b: int) -> bool {
    forall|k: int| 0 <= k < rs.len() ==> #[trigger] rs[k].0 >= b
}

/// Places `m` after every element whose start does not exceed `m`'s start,
/// so that on equal starts the element already present stays first.
pub open spec fn insert_by_start(s: Seq<(int, int)>, m: (int, int)) -> Seq<(int, int)>
    decreases s.len(),
{
    if s.len() == 0 {
        seq![m]
    } else if s[0].0 <= m.0 {
        seq![s[0]] + insert_by_start(s.drop_first(), m)
    } else {
        seq![m] + s
    }
}

/// Stable sort by start offset: elements are taken left to right and each is
/// placed after the already-placed elements whose start does not exceed its
/// own, so elements with equal starts keep their original relative order.
pub open spec fn sort_by_start(s: Seq<(int, int)>) -> Seq<(int, int)>
    decreases s.len(),
{
    if s.len() == 0 {
        Seq::empty()
    } else {
        insert_by_start(sort_by_start(s.drop_last()), s.last())
    }
}

/// Inserting into a sorted sequence keeps it sorted and adds exactly the new
/// element to its contents.
proof fn lemma_insert_by_start_sorted(s: Seq<(int, int)>, m: (int, int))
    requires
        sorted_by_start(s),
    ensures
        sorted_by_start(insert_by_start(s, m)),
        insert_by_start(s, m).to_multiset() == s.to_multiset().insert(m),
        insert_by_start(s, m).len() == s.len() + 1,
    decreases s.len(),
{
    broadcast use vstd::seq_lib::group_to_multiset_ensures;

    if s.len() == 0 {
        assert(insert_by_start(s, m) =~= Seq::empty().push(m));
        assert(s.to_multiset() =~= Multiset::empty());
    } else if s[0].0 <= m.0 {
        let tail = s.drop_first();
        lemma_insert_by_start_sorted(tail, m);
        let rest = insert_by_start(tail, m);
        let r = seq![s[0]] + rest;
        assert(starts_at_least(rest, s[0].0)) by {
            assert forall|k: int| 0 <= k < rest.len() implies #[trigger] rest[k].0 >= s[0].0 by {
                assert(rest.contains(rest[k]));
                assert(rest.to_multiset().count(rest[k]) > 0);
                if rest[k] != m {
                    assert(tail.to_multiset().count(rest[k]) > 0);
                    assert(tail.contains(rest[k]));
                    let j = choose|j: int| 0 <= j < tail.len() && tail[j] == rest[k];
                    assert(s[j + 1] == tail[j]);
                }
            }
        }
        assert(sorted_by_start(r)) by {
            assert forall|a: int, b: int| 0 <= a <= b < r.len() implies r[a].0 <= r[b].0 by {
                if a == 0 && b > 0 {
                    assert(r[b] == rest[b - 1]);
                } else if a > 0 {
                    assert(r[a] == rest[a - 1] && r[b] == rest[b - 1]);
                }
            }
        }
        assert(insert_by_start(s, m).to_multiset() == s.to_multiset().insert(m)) by {
            vstd::seq_lib::lemma_multiset_commutative(seq![s[0]], rest);
            vstd::seq_lib::lemma_multiset_commutative(seq![s[0]], tail);
            assert(seq![s[0]] + tail =~= s);
            assert(seq![s[0]].to_multiset() =~= Multiset::empty().insert(s[0]));
            assert(r.to_multiset() =~= s.to_multiset().insert(m));
        }
    } else {
        let r = seq![m] + s;
        assert(sorted_by_start(r)) by {
            assert forall|a: int, b: int| 0 <= a <= b < r.len() implies r[a].0 <= r[b].0 by {
                if a == 0 && b > 0 {
                    assert(r[b] == s[b - 1]);
                    assert(s[0].0 <= s[b - 1].0);
                } else if a > 0 {
                    assert(r[a] == s[a - 1] && r[b] == s[b - 1]);
                }
            }
        }
        assert(r.to_multiset() == s.to_multiset().insert(m)) by {
            vstd::seq_lib::lemma_multiset_commutative(seq![m], s);
            assert(seq![m].to_multiset() =~= Multiset::empty().insert(m));
            assert(r.to_multiset() =~= s.to_multiset().insert(m));
        }
    }
}

/// The stable sort returns a sequence that is sorted by start and holds
/// exactly the elements it was given; ties keep their original order by
/// construction of `sort_by_start`.
pub proof fn lemma_sort_by_start(s: Seq<(int, int)>)
    ensures
        sorted_by_start(sort_by_start(s)),
        sort_by_start(s).to_multiset() == s.to_multiset(),
        sort_by_start(s).len() == s.len(),
    decreases s.len(),
{
    broadcast use vstd::seq_lib::group_to_multiset_ensures;

    if s.len() == 0 {
        assert(s.to_multiset() =~= Multiset::empty());
    } else {
        let fore = s.drop_last();
        lemma_sort_by_start(fore);
        lemma_insert_by_start_sorted(sort_by_start(fore), s.last());
        assert(s =~= fore.push(s.last()));
        assert(fore.push(s.last()).to_multiset() == fore.to_multiset().insert(s.last()));
    }
}

/// Where the first element with a larger start sits at index `k`, the stable
/// insertion is exactly `Seq::insert` at `k`.
proof fn lemma_insert_by_start_at(s: Seq<(int, int)>, m: (int, int), k: int)
    requires
        0 <= k <= s.len(),
        forall|j: int| 0 <= j < k ==> #[trigger] s[j].0 <= m.0,
        k < s.len() ==> s[k].0 > m.0,
    ensures
        insert_by_start(s, m) == s.insert(k, m),
    decreases s.len(),
{
    if s.len() == 0 {
        assert(insert_by_start(s, m) =~= s.insert(0, m));
    } else if k == 0 {
        assert(insert_by_start(s, m) =~= s.insert(0, m));
    } else {
        let tail = s.drop_first();
        assert(s[0].0 <= m.0);
        assert(forall|j: int| 0 <= j < k - 1 ==> #[trigger] tail[j].0 <= m.0) by {
            assert(forall|j: int| 0 <= j < k - 1 ==> tail[j] == s[j + 1]);
        }
        assert(k - 1 < tail.len() ==> tail[k - 1].0 > m.0);
        lemma_insert_by_start_at(tail, m, k - 1);
        assert(seq![s[0]] + tail.insert(k - 1, m) =~= s.insert(k, m)) by {
            tail.insert_ensures(k - 1, m);
            s.insert_ensures(k, m);
        }
    }
}

/// Stable insertion sort on byte ranges, reordering by start offset only.
fn sort_ranges(v: Vec<(usize, usize)>) -> (r: Vec<(usize, usize)>)
    ensures
        ranges_view(r@) == sort_by_start(ranges_view(v@)),
        sorted_by_start(ranges_view(r@)),
        forall|x: (usize, usize)| r@.contains(x) ==> v@.contains(x),
{
    let mut out: Vec<(usize, usize)> = Vec::new();
    let mut idx: usize = 0;
    assert(ranges_view(v@).take(0) =~= Seq::empty());
    assert(ranges_view(out@) =~= Seq::empty());
    while idx < v.len()
        invariant
            0 <= idx <= v@.len(),
            ranges_view(out@) == sort_by_start(ranges_view(v@).take(idx as int)),
            sorted_by_start(ranges_view(out@)),
            forall|x: (usize, usize)| out@.contains(x) ==> v@.contains(x),
        decreases v@.len() - idx,
    {
        let m = v[idx];
        let mstart: usize = m.0;
        let mut k: usize = 0;
        while k < out.len() && out[k].0 <= mstart
            invariant
                0 <= k <= out@.len(),
                forall|j: int| 0 <= j < k ==> #[trigger] out@[j].0 <= mstart,
            decreases out@.len() - k,
        {
            k = k + 1;
        }
        let ghost out0 = out@;
        out.insert(k, m);
        proof {
            let mc = (m.0 as int, m.1 as int);
            assert(forall|j: int| 0 <= j < k ==> #[trigger] ranges_view(out0)[j].0 <= mc.0);
            assert(k < out0.len() ==> ranges_view(out0)[k as int].0 > mc.0);
            lemma_insert_by_start_at(ranges_view(out0), mc, k as int);
            assert(ranges_view(out@) =~= ranges_view(out0).insert(k as int, mc)) by {
                out0.insert_ensures(k as int, m);
                ranges_view(out0).insert_ensures(k as int, mc);
            }
            lemma_insert_by_start_sorted(ranges_view(out0), mc);
            let taken = ranges_view(v@).take(idx as int);
            let taken1 = ranges_view(v@).take(idx + 1);
            assert(taken1.drop_last() =~= taken);
            assert(taken1.last() == mc);
            assert(ranges_view(out@) == sort_by_start(taken1));
            assert(forall|x: (usize, usize)| out@.contains(x) ==> v@.contains(x)) by {
                assert forall|x: (usize, usize)| out@.contains(x) implies v@.contains(x) by {
                    let j = choose|j: int| 0 <= j < out@.len() && out@[j] == x;
                    out0.insert_ensures(k as int, m);
                    if j == k {
                        assert(x == m);
                        assert(v@[idx as int] == m);
                    } else if j < k {
                        assert(out0.contains(out0[j]));
                    } else {
                        assert(out0.contains(out0[j - 1]));
                    }
                }
            }
        }
        idx = idx + 1;
    }
    assert(ranges_view(v@).take(idx as int) =~= ranges_view(v@));
    out
}

/// What the occurrence list means, declaratively: a range is reported from
/// position `i` on exactly when the pattern occurs at its start, it is one
/// pattern wide, and it does not start before `i`.
proof fn lemma_occurrences_from_iff(hay: Seq<u8>, pat: Seq<u8>, i: int, range: (int, int))
    requires
        i >= 0,
    ensures
        occurrences_from(hay, pat, i).contains(range) <==> (occurs_at(hay, pat, range.0)
            && range.1 == range.0 + pat.len() && range.0 >= i),
    decreases hay.len() + 1 - i,
{
    if i + pat.len() > hay.len() {
        if occurs_at(hay, pat, range.0) && range.0 >= i {
            assert(range.0 + pat.len() > hay.len());
        }
    } else {
        lemma_occurrences_from_iff(hay, pat, i + 1, range);
        let rest = occurrences_from(hay, pat, i + 1);
        if occurs_at(hay, pat, i) {
            let whole = seq![(i, i + pat.len() as int)] + rest;
            assert(occurrences_from(hay, pat, i) == whole);
            if occurs_at(hay, pat, range.0) && range.1 == range.0 + pat.len() && range.0 >= i {
                if range.0 == i {
                    assert(whole[0] == range);
                    assert(whole.contains(range));
                } else {
                    let j = choose|j: int| 0 <= j < rest.len() && rest[j] == range;
                    assert(whole[j + 1] == range);
                    assert(whole.contains(range));
                }
            }
            if whole.contains(range) {
                let j = choose|j: int| 0 <= j < whole.len() && whole[j] == range;
                if j > 0 {
                    assert(rest[j - 1] == range);
                    assert(rest.contains(range));
                }
            }
        } else {
            if occurs_at(hay, pat, range.0) && range.1 == range.0 + pat.len() && range.0 >= i {
                assert(range.0 != i);
            }
        }
    }
}

/// Every occurrence, and nothing else: a range is in what a literal
/// byte-string needle reports exactly when the pattern occurs at its start
/// and it spans one pattern width.
pub proof fn lemma_bytes_found_iff(hay: Seq<u8>, pat: Seq<u8>, range: (int, int))
    ensures
        bytes_found(hay, pat).contains(range) <==> (occurs_at(hay, pat, range.0) && range.1
            == range.0 + pat.len()),
{
    lemma_occurrences_from_iff(hay, pat, 0, range);
}

/// Matches survive growth: the lookahead buffer only ever grows between
/// pulls, and an occurrence of a literal pattern is still reported after
/// more bytes arrive behind it. A partial match near the end of the buffer
/// therefore only needs the next pull to complete it.
pub proof fn lemma_occurrence_persists(hay: Seq<u8>, more: Seq<u8>, pat: Seq<u8>, range: (
    int,
    int,
))
    requires
        bytes_found(hay, pat).contains(range),
    ensures
        bytes_found(hay + more, pat).contains(range),
{
    lemma_bytes_found_iff(hay, pat, range);
    lemma_bytes_found_iff(hay + more, pat, range);
    assert((hay + more).subrange(range.0, range.0 + pat.len() as int) =~= hay.subrange(
        range.0,
        range.0 + pat.len() as int,
    ));
}

/// A range is in the concatenated sub-needle matches exactly when some
/// sub-needle reports it.
proof fn lemma_any_found_membership(subs: Seq<Needle>, hay: Seq<u8>, eof: bool, range: (int, int))
    ensures
        any_found(subs, hay, eof).contains(range) <==> exists|k: int|
            0 <= k < subs.len() && #[trigger] needle_found(subs[k], hay, eof).contains(range),
    decreases subs.len(),
{
    if subs.len() == 0 {
    } else {
        let first = needle_found(subs[0], hay, eof);
        let tail = subs.drop_first();
        lemma_any_found_membership(tail, hay, eof, range);
        let rest = any_found(tail, hay, eof);
        let whole = first + rest;
        assert(forall|k: int| 0 <= k < tail.len() ==> tail[k] == subs[k + 1]);
        if whole.contains(range) {
            let j = choose|j: int| 0 <= j < whole.len() && whole[j] == range;
            if j < first.len() {
                assert(first[j] == range);
                assert(first.contains(range));
            } else {
                assert(rest[j - first.len()] == range);
                assert(rest.contains(range));
            }
        }
        if exists|k: int|
            0 <= k < subs.len() && #[trigger] needle_found(subs[k], hay, eof).contains(range) {
            let k = choose|k: int|
                0 <= k < subs.len() && #[trigger] needle_found(subs[k], hay, eof).contains(range);
            if k == 0 {
                let j = choose|j: int| 0 <= j < first.len() && first[j] == range;
                assert(whole[j] == range);
                assert(whole.contains(range));
            } else {
                assert(needle_found(tail[k - 1], hay, eof).contains(range));
                let j = choose|j: int| 0 <= j < rest.len() && rest[j] == range;
                assert(whole[first.len() + j] == range);
                assert(whole.contains(range));
            }
        }
    }
}

/// What an alternative matches, declaratively: a range is in what an `Any`
/// needle reports exactly when one of its sub-needles reports it on the
/// same buffer.
pub proof fn lemma_any_found_iff(subs: Vec<Needle>, hay: Seq<u8>, eof: bool, range: (int, int))
    ensures
        needle_found(Needle::Any(subs), hay, eof).contains(range) <==> exists|k: int|
            0 <= k < subs@.len() && #[trigger] needle_found(subs@[k], hay, eof).contains(range),
{
    broadcast use vstd::seq_lib::group_to_multiset_ensures;

    lemma_sort_by_start(any_found(subs@, hay, eof));
    lemma_any_found_membership(subs@, hay, eof, range);
    assert(needle_found(Needle::Any(subs), hay, eof).contains(range) <==> any_found(
        subs@,
        hay,
        eof,
    ).contains(range)) by {
        let sorted = needle_found(Needle::Any(subs), hay, eof);
        let merged = any_found(subs@, hay, eof);
        assert(sorted.to_multiset() == merged.to_multiset());
        assert(sorted.contains(range) <==> sorted.to_multiset().count(range) > 0);
        assert(merged.contains(range) <==> merged.to_multiset().count(range) > 0);
    }
}

/// Ordering of alternative matches: what an `Any` needle reports is sorted
/// by start offset, and holds exactly the matches its sub-needles report on
/// the same buffer. On equal starts the declaration order of the
/// sub-needles is kept, by the stable construction of `sort_by_start`.
pub proof fn lemma_any_ordering(subs: Vec<Needle>, hay: Seq<u8>, eof: bool)
    ensures
        sorted_by_start(needle_found(Needle::Any(subs), hay, eof)),
        needle_found(Needle::Any(subs), hay, eof).to_multiset() == any_found(
            subs@,
            hay,
            eof,
        ).to_multiset(),
        needle_found(Needle::Any(subs), hay, eof).len() == any_found(subs@, hay, eof).len(),
{
    lemma_sort_by_start(any_found(subs@, hay, eof));
}

/// Compares `pat` against the bytes of `hay` that start at `i`.
fn occurs_here(hay: &[u8], pat: &[u8], i: usize) -> (r: bool)
    requires
        i + pat@.len() <= hay@.len(),
    ensures
        r == occurs_at(hay@, pat@, i as int),
{
    assert(hay@.len() == hay.len());
    let mut j: usize = 0;
    while j < pat.len()
        invariant
            0 <= j <= pat@.len(),
            i + pat@.len() <= hay@.len() <= usize::MAX,
            forall|k: int| 0 <= k < j ==> hay@[i + k] == pat@[k],
        decreases pat@.len() - j,
    {
        if hay[i + j] != pat[j] {
            assert(hay@.subrange(i as int, i + pat@.len() as int)[j as int] != pat@[j as int]);
            return false;
        }
        j = j + 1;
    }
    assert(hay@.subrange(i as int, i + pat@.len() as int) =~= pat@);
    true
}

/// Collects every occurrence of `pat` in `hay`, in increasing start order.
fn find_occurrences(hay: &[u8], pat: &[u8]) -> (r: Vec<(usize, usize)>)
    ensures
        ranges_view(r@) == bytes_found(hay@, pat@),
{
    let mut acc: Vec<(usize, usize)> = Vec::new();
    if pat.len() > hay.len() {
        assert(ranges_view(acc@) =~= bytes_found(hay@, pat@));
        return acc;
    }
    assert(hay@.len() == hay.len());
    let last: usize = hay.len() - pat.len();
    let mut i: usize = 0;
    loop
        invariant_except_break
            pat@.len() <= hay@.len() <= usize::MAX,
            last == hay@.len() - pat@.len(),
            0 <= i <= last,
            bytes_found(hay@, pat@) =~= ranges_view(acc@) + occurrences_from(hay@, pat@, i as int),
        ensures
            ranges_view(acc@) =~= bytes_found(hay@, pat@),
        decreases last - i,
    {
        let ghost acc0 = acc@;
        let matched = occurs_here(hay, pat, i);
        if matched {
            acc.push((i, i + pat.len()));
        }
        proof {
            if matched {
                assert(ranges_view(acc@) =~= ranges_view(acc0) + seq![
                    (i as int, i + pat@.len() as int),
                ]);
            }
            assert(bytes_found(hay@, pat@) =~= ranges_view(acc@) + occurrences_from(
                hay@,
                pat@,
                i + 1,
            ));
        }
        if i == last {
            proof {
                assert(occurrences_from(hay@, pat@, i + 1) =~= Seq::empty());
            }
            break;
        }
        i = i + 1;
    }
    assert(ranges_view(acc@) =~= bytes_found(hay@, pat@));
    acc
}

/// Occurrences of `pat` from position `i` are in-bounds ranges of equal
/// width, listed in increasing start order, all starting at `i` or later.
proof fn lemma_occurrences_wf(hay: Seq<u8>, pat: Seq<u8>, i: int)
    ensures
        ranges_wf(occurrences_from(hay, pat, i), hay.len() as int),
        sorted_by_start(occurrences_from(hay, pat, i)),
        starts_at_least(occurrences_from(hay, pat, i), i),
    decreases hay.len() + 1 - i,
{
    if i < 0 || i + pat.len() > hay.len() {
    } else {
        lemma_occurrences_wf(hay, pat, i + 1);
        let rest = occurrences_from(hay, pat, i + 1);
        if occurs_at(hay, pat, i) {
            let r = seq![(i, i + pat.len() as int)] + rest;
            assert(forall|k: int| 0 <= k < rest.len() ==> r[k + 1] == rest[k]);
            assert(r[0] == (i, i + pat.len() as int));
        }
    }
}

/// A sequence drawn from the elements of a well-formed sequence is itself
/// well formed.
proof fn lemma_wf_transfer(a: Seq<(usize, usize)>, b: Seq<(usize, usize)>, n: int)
    requires
        forall|x: (usize, usize)| b.contains(x) ==> a.contains(x),
        ranges_wf(ranges_view(a), n),
    ensures
        ranges_wf(ranges_view(b), n),
{
    assert forall|k: int| 0 <= k < ranges_view(b).len() implies 0 <= #[trigger] ranges_view(
        b,
    )[k].0 <= ranges_view(b)[k].1 <= n by {
        assert(b.contains(b[k]));
        let j = choose|j: int| 0 <= j < a.len() && a[j] == b[k];
        assert(ranges_view(a)[j] == (a[j].0 as int, a[j].1 as int));
    }
}

/// What a valid regular-expression pattern matches in a haystack: the
/// successive non-overlapping leftmost matches, as in-bounds half-open
/// byte ranges in increasing position order.
pub uninterp spec fn regex_found(pattern: Seq<char>, hay: Seq<u8>) -> Seq<(int, int)>;

/// Whether a pattern is accepted by the regular-expression compiler.
pub uninterp spec fn regex_valid(pattern: Seq<char>) -> bool;

/// Relies on `regex::bytes::Regex::new`, which accepts exactly the valid
/// patterns, and on `regex::bytes::Regex::find_iter`, which yields the
/// successive non-overlapping matches in the haystack, each a half-open
/// in-bounds byte range with start not past end, in search order.
#[verifier::external_body]
fn regex_find_all(pattern: &str, hay: &[u8]) -> (r: Option<Vec<(usize, usize)>>)
    ensures
        r is Some <==> regex_valid(pattern@),
        r matches Some(v) ==> ranges_view(v@) == regex_found(pattern@, hay@),
        r is Some ==> ranges_wf(regex_found(pattern@, hay@), hay@.len() as int),
        r is Some ==> sorted_by_start(regex_found(pattern@, hay@)),
        r is Some ==> forall|k: int|
            0 <= k < regex_found(pattern@, hay@).len() - 1 ==> (#[trigger] regex_found(
                pattern@,
                hay@,
            )[k]).1 <= regex_found(pattern@, hay@)[k + 1].0,
{
    match regex::bytes::Regex::new(pattern) {
        Ok(re) => Some(re.find_iter(hay).map(|m| (m.start(), m.end())).collect()),
        Err(_) => None,
    }
}

/// The matches of each needle of `subs` on the same buffer, concatenated in
/// declaration order.
pub open spec fn any_found(subs: Seq<Needle>, hay: Seq<u8>, eof: bool) -> Seq<(int, int)>
    decreases subs,
{
    if subs.len() == 0 {
        Seq::empty()
    } else {
        needle_found(subs[0], hay, eof) + any_found(subs.drop_first(), hay, eof)
    }
}

/// The matches a needle reports on buffer `hay` with end-of-file flag `eof`.
pub open spec fn needle_found(n: Needle, hay: Seq<u8>, eof: bool) -> Seq<(int, int)>
    decreases n,
{
    match n {
        Needle::Bytes(pat) => bytes_found(hay, pat@),
        Needle::Regex(pat) => regex_found(pat@, hay),
        Needle::NBytes(count) => if count <= hay.len() {
            seq![(0int, count as int)]
        } else {
            Seq::empty()
        },
        Needle::Eof => if eof {
            seq![(0int, hay.len() as int)]
        } else {
            Seq::empty()
        },
        Needle::Any(subs) => sort_by_start(any_found(subs@, hay, eof)),
    }
}

impl Needle {
    /// Every regular-expression pattern inside this needle is valid.
    pub open spec fn valid(self) -> bool
        decreases self,
    {
        match self {
            Needle::Bytes(_) => true,
            Needle::Regex(pat) => regex_valid(pat@),
            Needle::NBytes(_) => true,
            Needle::Eof => true,
            Needle::Any(subs) => forall|k: int|
                0 <= k < subs@.len() ==> (#[trigger] subs@[k]).valid(),
        }
    }

    /// Locates every match of this needle in `buf` under end-of-file flag
    /// `eof`. Fails exactly when a regular-expression pattern inside the
    /// needle does not compile.
    #[verifier::loop_isolation(false)]
    pub fn check(&self, buf: &[u8], eof: bool) -> (r: Result<Vec<(usize, usize)>, Error>)
        ensures
            r is Ok <==> self.valid(),
            r matches Ok(v) ==> ranges_view(v@) == needle_found(*self, buf@, eof),
            r matches Ok(v) ==> ranges_wf(ranges_view(v@), buf@.len() as int),
            r matches Ok(v) ==> sorted_by_start(ranges_view(v@)),
            r matches Err(e) ==> e == Error::RegexCompile,
        decreases *self,
    {
        match self {
            Needle::Bytes(pat) => {
                let found = find_occurrences(buf, pat.as_slice());
                proof {
                    lemma_occurrences_wf(buf@, pat@, 0);
                }
                Ok(found)
            },
            Needle::Regex(pat) => {
                match regex_find_all(pat.as_str(), buf) {
                    Some(found) => Ok(found),
                    None => Err(Error::RegexCompile),
                }
            },
            Needle::NBytes(count) => {
                let mut found: Vec<(usize, usize)> = Vec::new();
                if *count <= buf.len() {
                    found.push((0, *count));
                    assert(ranges_view(found@) =~= needle_found(*self, buf@, eof));
                } else {
                    assert(ranges_view(found@) =~= needle_found(*self, buf@, eof));
                }
                Ok(found)
            },
            Needle::Eof => {
                let mut found: Vec<(usize, usize)> = Vec::new();
                if eof {
                    found.push((0, buf.len()));
                    assert(ranges_view(found@) =~= needle_found(*self, buf@, eof));
                } else {
                    assert(ranges_view(found@) =~= needle_found(*self, buf@, eof));
                }
                Ok(found)
            },
            Needle::Any(subs) => {
                let mut all: Vec<(usize, usize)> = Vec::new();
                let mut idx: usize = 0;
                assert(subs@.subrange(0, subs@.len() as int) =~= subs@);
                while idx < subs.len()
                    invariant
                        0 <= idx <= subs@.len(),
                        forall|k: int| 0 <= k < idx ==> (#[trigger] subs@[k]).valid(),
                        any_found(subs@, buf@, eof) =~= ranges_view(all@) + any_found(
                            subs@.subrange(idx as int, subs@.len() as int),
                            buf@,
                            eof,
                        ),
                        ranges_wf(ranges_view(all@), buf@.len() as int),
                    decreases subs@.len() - idx,
                {
                    let sub = &subs[idx];
                    proof {
                        assert(*subs == self->Any_0);
                        assert(decreases_to!(*self => self->Any_0));
                        assert(decreases_to!(self->Any_0 => self->Any_0@));
                        assert(decreases_to!(self->Any_0@ => self->Any_0@[idx as int]));
                        assert(decreases_to!(*self => subs@[idx as int]));
                    }
                    let sub_found = match sub.check(buf, eof) {
                        Ok(v) => v,
                        Err(e) => {
                            proof {
                                assert(!subs@[idx as int].valid());
                                assert(!(*self).valid());
                            }
                            return Err(e);
                        },
                    };
                    let ghost all0 = all@;
                    let mut sub_found = sub_found;
                    let ghost subf0 = sub_found@;
                    all.append(&mut sub_found);
                    proof {
                        assert forall|k: int| 0 <= k < ranges_view(all@).len() implies 0
                            <= #[trigger] ranges_view(all@)[k].0 <= ranges_view(all@)[k].1
                            <= buf@.len() by {
                            if k < all0.len() {
                                assert(all@[k] == all0[k]);
                                assert(ranges_view(all0)[k] == (all0[k].0 as int, all0[k].1 as int));
                            } else {
                                assert(all@[k] == subf0[k - all0.len()]);
                                assert(ranges_view(subf0)[k - all0.len()] == (
                                    subf0[k - all0.len()].0 as int,
                                    subf0[k - all0.len()].1 as int,
                                ));
                            }
                        }
                        let remaining = subs@.subrange(idx as int, subs@.len() as int);
                        assert(remaining[0] == subs@[idx as int]);
                        assert(remaining.drop_first() =~= subs@.subrange(
                            idx + 1,
                            subs@.len() as int,
                        ));
                        assert(ranges_view(all@) =~= ranges_view(all0) + ranges_view(
                            all@.subrange(all0.len() as int, all@.len() as int),
                        ));
                        assert(any_found(subs@, buf@, eof) =~= ranges_view(all@) + any_found(
                            subs@.subrange(idx + 1, subs@.len() as int),
                            buf@,
                            eof,
                        ));
                    }
                    idx = idx + 1;
                }
                assert(any_found(subs@.subrange(idx as int, subs@.len() as int), buf@, eof)
                    =~= Seq::empty());
                assert(ranges_view(all@) =~= any_found(subs@, buf@, eof));
                let sorted = sort_ranges(all);
                proof {
                    lemma_wf_transfer(all@, sorted@, buf@.len() as int);
                }
                Ok(sorted)
            },
        }
    }
}

} // verus!
