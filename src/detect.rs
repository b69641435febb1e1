//! Duplicate detection: records sorted by creation time, then each adjacent
//! pair compared.
use vstd::prelude::*;
use crate::record::{ImgRef, same_image};

verus! {

/// Creation times never decrease along `s`.
pub open spec fn sorted_by_created(s: Seq<ImgRef>) -> bool {
    forall|i: int, j: int|
        0 <= i < j < s.len() ==> #[trigger] s[i].created.millis <= #[trigger] s[j].created.millis
}

/// `out` holds the records of `input`, each once, with `perm[k]` the position in
/// `input` of `out[k]`; records of equal creation time keep their order.
pub open spec fn stable_arrangement(input: Seq<ImgRef>, out: Seq<ImgRef>, perm: Seq<int>) -> bool {
    &&& out.len() == input.len()
    &&& perm.len() == out.len()
    &&& forall|k: int|
        0 <= k < out.len() ==> 0 <= #[trigger] perm[k] < input.len() && out[k] == input[perm[k]]
    &&& forall|k: int, l: int| 0 <= k < l < out.len() ==> #[trigger] perm[k] != #[trigger] perm[l]
    &&& forall|k: int, l: int|
        0 <= k < l < out.len() && out[k].created.millis == out[l].created.millis
            ==> #[trigger] perm[k] < #[trigger] perm[l]
}

/// `out` is `input` sorted by creation time, stably.
pub open spec fn stably_sorted(input: Seq<ImgRef>, out: Seq<ImgRef>) -> bool {
    &&& sorted_by_created(out)
    &&& exists|perm: Seq<int>| stable_arrangement(input, out, perm)
}

/// Position `a` comes before position `b` when its key is smaller, or the
/// keys are equal and `a < b`.
pub open spec fn key_before(keys: Seq<i64>, a: usize, b: usize) -> bool {
    keys[a as int] < keys[b as int] || (keys[a as int] == keys[b as int] && a < b)
}

/// `ord` lists positions of `keys`, each strictly before the next under `key_before`.
pub open spec fn ordered_positions(keys: Seq<i64>, ord: Seq<usize>, lo: int, hi: int) -> bool {
    &&& ord.len() == hi - lo
    &&& forall|p: int| 0 <= p < ord.len() ==> lo <= #[trigger] ord[p] < hi
    &&& forall|p: int, q: int|
        0 <= p < q < ord.len() ==> key_before(keys, #[trigger] ord[p], #[trigger] ord[q])
}

/// Merges two runs of positions, each ordered by `key_before`, the first from
/// `[lo, mid)` and the second from `[mid, hi)`.
fn merge_positions(keys: &Vec<i64>, left: Vec<usize>, right: Vec<usize>, lo: usize, mid: usize, hi: usize) -> (out: Vec<usize>)
    requires
        lo <= mid <= hi <= keys@.len(),
        ordered_positions(keys@, left@, lo as int, mid as int),
        ordered_positions(keys@, right@, mid as int, hi as int),
    ensures
        ordered_positions(keys@, out@, lo as int, hi as int),
{
    let mut out: Vec<usize> = Vec::new();
    let mut i: usize = 0;
    let mut j: usize = 0;
    while i < left.len() || j < right.len()
        invariant
            lo <= mid <= hi <= keys@.len(),
            ordered_positions(keys@, left@, lo as int, mid as int),
            ordered_positions(keys@, right@, mid as int, hi as int),
            i <= left@.len(),
            j <= right@.len(),
            out@.len() == i + j,
            forall|p: int| 0 <= p < out@.len() ==> lo <= #[trigger] out@[p] < hi,
            forall|p: int, q: int|
                0 <= p < q < out@.len() ==> key_before(keys@, #[trigger] out@[p], #[trigger] out@[q]),
            forall|p: int, q: int|
                0 <= p < out@.len() && i <= q < left@.len() ==> key_before(
                    keys@,
                    #[trigger] out@[p],
                    #[trigger] left@[q],
                ),
            forall|p: int, q: int|
                0 <= p < out@.len() && j <= q < right@.len() ==> key_before(
                    keys@,
                    #[trigger] out@[p],
                    #[trigger] right@[q],
                ),
        decreases left@.len() + right@.len() - i - j,
    {
        let take_left = if i < left.len() && j < right.len() {
            let a = left[i];
            let b = right[j];
            keys[a] < keys[b] || (keys[a] == keys[b] && a < b)
        } else {
            i < left.len()
        };
        let ghost prev = out@;
        if take_left {
            let a = left[i];
            proof {
                assert forall|q: int| j <= q < right@.len() implies key_before(keys@, a, #[trigger] right@[q]) by {
                    if q > j {
                        assert(key_before(keys@, right@[j as int], right@[q]));
                    }
                }
                assert forall|q: int| i < q < left@.len() implies key_before(keys@, a, #[trigger] left@[q]) by {
                    assert(key_before(keys@, left@[i as int], left@[q]));
                }
            }
            out.push(a);
            i = i + 1;
        } else {
            let b = right[j];
            proof {
                assert forall|q: int| i <= q < left@.len() implies key_before(keys@, b, #[trigger] left@[q]) by {
                    if q > i {
                        assert(key_before(keys@, left@[i as int], left@[q]));
                    }
                }
                assert forall|q: int| j < q < right@.len() implies key_before(keys@, b, #[trigger] right@[q]) by {
                    assert(key_before(keys@, right@[j as int], right@[q]));
                }
            }
            out.push(b);
            j = j + 1;
        }
        proof {
            assert forall|p: int, q: int| 0 <= p < q < out@.len() implies key_before(
                keys@,
                #[trigger] out@[p],
                #[trigger] out@[q],
            ) by {
                if q < prev.len() {
                    assert(out@[p] == prev[p] && out@[q] == prev[q]);
                } else {
                    assert(out@[p] == prev[p]);
                }
            }
        }
    }
    out
}

/// The positions `[lo, hi)` of `keys`, ordered by key and, among equal keys, by
/// position.
fn sort_positions(keys: &Vec<i64>, lo: usize, hi: usize) -> (ord: Vec<usize>)
    requires
        lo <= hi <= keys@.len(),
    ensures
        ordered_positions(keys@, ord@, lo as int, hi as int),
    decreases hi - lo,
{
    if hi - lo <= 1 {
        let mut ord: Vec<usize> = Vec::new();
        if hi - lo == 1 {
            ord.push(lo);
        }
        ord
    } else {
        let mid = lo + (hi - lo) / 2;
        let left = sort_positions(keys, lo, mid);
        let right = sort_positions(keys, mid, hi);
        merge_positions(keys, left, right, lo, mid, hi)
    }
}

/// Sorts records by creation time, ascending; records of equal creation time
/// keep the order they had. Takes `O(n log n)` steps.
pub fn sort_by_created(records: Vec<ImgRef>) -> (out: Vec<ImgRef>)
    ensures
        stably_sorted(records@, out@),
{
    let ghost orig = records@;
    let n = records.len();
    let mut keys: Vec<i64> = Vec::new();
    let mut k: usize = 0;
    while k < n
        invariant
            n == orig.len(),
            k <= n,
            records@ == orig,
            keys@.len() == k,
            forall|p: int| 0 <= p < k ==> #[trigger] keys@[p] == orig[p].created.millis,
        decreases n - k,
    {
        keys.push(records[k].created.millis);
        k = k + 1;
    }
    let ord = sort_positions(&keys, 0, n);
    // slots[q] holds the record at position n - 1 - q, until it is taken
    let mut rest = records;
    let mut slots: Vec<Option<ImgRef>> = Vec::new();
    while rest.len() > 0
        invariant
            n == orig.len(),
            rest@ == orig.subrange(0, n - slots@.len()),
            slots@.len() <= n,
            forall|q: int| 0 <= q < slots@.len() ==> #[trigger] slots@[q] == Some(orig[n - 1 - q]),
        decreases rest@.len(),
    {
        let r = rest.pop();
        match r {
            Some(r) => slots.push(Some(r)),
            None => {},
        }
    }
    let mut out: Vec<ImgRef> = Vec::new();
    let mut m: usize = 0;
    while m < n
        invariant
            n == orig.len(),
            keys@.len() == n,
            forall|p: int| 0 <= p < n ==> #[trigger] keys@[p] == orig[p].created.millis,
            ordered_positions(keys@, ord@, 0, n as int),
            slots@.len() == n,
            m <= n,
            forall|q: int| 0 <= q < n && (#[trigger] slots@[q]) is Some ==> slots@[q] == Some(orig[n - 1 - q]),
            forall|t: int| m <= t < n ==> (#[trigger] slots@[n - 1 - ord@[t]]) is Some,
            out@.len() == m,
            forall|t: int| 0 <= t < m ==> #[trigger] out@[t] == orig[ord@[t] as int],
        decreases n - m,
    {
        let idx = ord[m];
        let slot_index = n - 1 - idx;
        assert(slots@[slot_index as int] is Some);
        slots.push(None);
        let taken = slots.swap_remove(slot_index);
        proof {
            assert forall|t: int| m + 1 <= t < n implies (#[trigger] slots@[n - 1 - ord@[t]]) is Some by {
                assert(key_before(keys@, ord@[m as int], ord@[t]));
                assert(ord@[t] != idx);
            }
        }
        match taken {
            Some(r) => out.push(r),
            None => {},
        }
        m = m + 1;
    }
    proof {
        let perm = Seq::new(n as nat, |t: int| ord@[t] as int);
        assert forall|a: int, b: int| 0 <= a < b < out@.len() implies
            #[trigger] out@[a].created.millis <= #[trigger] out@[b].created.millis by {
            assert(key_before(keys@, ord@[a], ord@[b]));
        }
        assert forall|a: int, b: int| 0 <= a < b < out@.len() implies #[trigger] perm[a] != #[trigger] perm[b] by {
            assert(key_before(keys@, ord@[a], ord@[b]));
        }
        assert forall|a: int, b: int|
            0 <= a < b < out@.len() && out@[a].created.millis == out@[b].created.millis
                implies #[trigger] perm[a] < #[trigger] perm[b] by {
            assert(key_before(keys@, ord@[a], ord@[b]));
        }
        assert(stable_arrangement(orig, out@, perm));
    }
    out
}

/// The positions `i < k` at which `s[i]` and `s[i + 1]` describe the same
/// image, in increasing order.
pub open spec fn matches_before(s: Seq<ImgRef>, k: int) -> Seq<usize>
    decreases k,
{
    if k <= 0 {
        Seq::empty()
    } else if same_image(s[k - 1], s[k]) {
        matches_before(s, k - 1).push((k - 1) as usize)
    } else {
        matches_before(s, k - 1)
    }
}

/// The positions `i` at which `s[i]` and `s[i + 1]` describe the same image.
pub open spec fn duplicate_positions(s: Seq<ImgRef>) -> Seq<usize> {
    if s.len() == 0 {
        Seq::empty()
    } else {
        matches_before(s, s.len() - 1)
    }
}

/// Scans adjacent records once and returns each position `i` at which
/// `records[i]` and `records[i + 1]` describe the same image.
pub fn adjacent_duplicates(records: &Vec<ImgRef>) -> (pairs: Vec<usize>)
    ensures
        pairs@ == duplicate_positions(records@),
{
    let mut pairs: Vec<usize> = Vec::new();
    if records.len() == 0 {
        return pairs;
    }
    let mut i: usize = 0;
    while i < records.len() - 1
        invariant
            records@.len() >= 1,
            i + 1 <= records@.len(),
            pairs@ == matches_before(records@, i as int),
        decreases records@.len() - i,
    {
        if records[i] == records[i + 1] {
            pairs.push(i);
        }
        i = i + 1;
    }
    pairs
}

/// Records sorted by creation time, and the positions of adjacent records in
/// that order that describe the same image.
pub struct Detection {
    pub sorted: Vec<ImgRef>,
    pub pairs: Vec<usize>,
}

impl Detection {
    /// Each reported position starts a pair within `sorted`.
    pub open spec fn wf(&self) -> bool {
        forall|m: int| 0 <= m < self.pairs@.len() ==> #[trigger] self.pairs@[m] + 1 < self.sorted@.len()
    }
}

/// Sorts the records by creation time (stably) and reports each adjacent pair
/// that describes the same image: `pairs` holds `i` for the pair
/// `(sorted[i], sorted[i + 1])`.
pub fn detect(records: Vec<ImgRef>) -> (d: Detection)
    ensures
        d.wf(),
        stably_sorted(records@, d.sorted@),
        d.pairs@ == duplicate_positions(d.sorted@),
{
    let sorted = sort_by_created(records);
    let pairs = adjacent_duplicates(&sorted);
    let n = sorted.len();
    proof {
        assert forall|m: int| 0 <= m < pairs@.len() implies #[trigger] pairs@[m] + 1 < sorted@.len() by {
            if n > 0 {
                lemma_matches_before(sorted@, sorted@.len() - 1);
            }
        }
    }
    Detection { sorted, pairs }
}

proof fn lemma_matches_before(s: Seq<ImgRef>, k: int)
    requires
        0 <= k < s.len(),
        s.len() <= usize::MAX,
    ensures
        matches_before(s, k).len() <= k,
        forall|m: int|
            0 <= m < matches_before(s, k).len() ==> {
                let i = #[trigger] matches_before(s, k)[m] as int;
                0 <= i < k && same_image(s[i], s[i + 1])
            },
        forall|i: int| 0 <= i < k && #[trigger] same_image(s[i], s[i + 1]) ==> exists|m: int|
            0 <= m < matches_before(s, k).len() && #[trigger] matches_before(s, k)[m] == i,
        forall|m1: int, m2: int|
            0 <= m1 < m2 < matches_before(s, k).len() ==> #[trigger] matches_before(s, k)[m1]
                < #[trigger] matches_before(s, k)[m2],
    decreases k,
{
    if k > 0 {
        lemma_matches_before(s, k - 1);
        let prev = matches_before(s, k - 1);
        if same_image(s[k - 1], s[k]) {
            let cur = prev.push((k - 1) as usize);
            assert forall|i: int| 0 <= i < k && #[trigger] same_image(s[i], s[i + 1]) implies exists|m: int|
                0 <= m < cur.len() && #[trigger] cur[m] == i by {
                if i == k - 1 {
                    assert(cur[prev.len() as int] == i);
                } else {
                    let m = choose|m: int| 0 <= m < prev.len() && #[trigger] prev[m] == i;
                    assert(cur[m] == i);
                }
            }
        }
    }
}

/// The scan compares each of the `n - 1` adjacent pairs at most once: it
/// reports at most `n - 1` pairs (none for zero or one record), each position
/// once and in increasing order, and exactly the positions whose two records
/// describe the same image.
pub proof fn lemma_duplicate_positions(s: Seq<ImgRef>)
    requires
        s.len() <= usize::MAX,
    ensures
        s.len() <= 1 ==> duplicate_positions(s).len() == 0,
        s.len() >= 1 ==> duplicate_positions(s).len() <= s.len() - 1,
        forall|m1: int, m2: int|
            0 <= m1 < m2 < duplicate_positions(s).len() ==> #[trigger] duplicate_positions(s)[m1]
                < #[trigger] duplicate_positions(s)[m2],
        forall|i: int|
            0 <= i < s.len() - 1 ==> (#[trigger] same_image(s[i], s[i + 1]) <==> duplicate_positions(
                s,
            ).contains(i as usize)),
{
    if s.len() >= 1 {
        lemma_matches_before(s, s.len() - 1);
        let d = duplicate_positions(s);
        assert forall|i: int| 0 <= i < s.len() - 1 implies (#[trigger] same_image(s[i], s[i + 1])
            <==> d.contains(i as usize)) by {
            if d.contains(i as usize) {
                let m = choose|m: int| 0 <= m < d.len() && d[m] == i as usize;
                assert(d[m] == d[m] as int);
            }
        }
    }
}

/// After sorting, creation times never decrease from one record to the next.
pub proof fn lemma_sorted_adjacent(input: Seq<ImgRef>, out: Seq<ImgRef>)
    requires
        stably_sorted(input, out),
    ensures
        forall|i: int|
            0 <= i < out.len() - 1 ==> #[trigger] out[i].created.millis <= out[i + 1].created.millis,
{
    assert forall|i: int| 0 <= i < out.len() - 1 implies #[trigger] out[i].created.millis
        <= out[i + 1].created.millis by {
        assert(out[i].created.millis <= out[i + 1].created.millis);
    }
}

} // verus!
