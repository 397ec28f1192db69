//! Finding the audible parts of a recording from per-block or per-pixel loudness.

use vstd::prelude::*;

verus! {

/// Number of consecutive loud blocks that mark the start or end of sound.
pub const REQUIRED_BLOCKS: usize = 3;

/// Blocks `i`, `i + 1` and `i + 2` are all loud.
pub open spec fn loud_run_at(loud: Seq<bool>, i: int) -> bool {
    0 <= i && i + 2 < loud.len() && loud[i] && loud[i + 1] && loud[i + 2]
}

/// The part of a recording kept when silence is trimmed, in blocks: from the
/// first block that starts three loud blocks in a row up to (not including)
/// the block after the last such run; none when the recording has no three
/// loud blocks in a row.
pub open spec fn trim_range_spec(loud: Seq<bool>) -> Option<(usize, usize)> {
    if exists|i: int| loud_run_at(loud, i) {
        let s = choose|i: int| loud_run_at(loud, i) && forall|j: int| 0 <= j < i ==> !loud_run_at(loud, j);
        let e = choose|i: int| loud_run_at(loud, i) && forall|j: int| i < j < loud.len() ==> !loud_run_at(loud, j);
        Some((s as usize, (e + 3) as usize))
    } else {
        None
    }
}

/// The first block that starts three loud blocks in a row.
fn first_loud_run(loud: &Vec<bool>) -> (r: Option<usize>)
    ensures
        r matches Some(s) ==> loud_run_at(loud@, s as int) && forall|j: int| 0 <= j < s ==> !loud_run_at(loud@, j),
        r is None ==> forall|j: int| !loud_run_at(loud@, j),
{
    let n = loud.len();
    let mut consecutive: usize = 0;
    let mut i: usize = 0;
    while i < n
        invariant
            i <= n,
            n == loud@.len(),
            consecutive <= 2,
            consecutive <= i,
            forall|k: int| i - consecutive <= k < i ==> loud@[k],
            consecutive < i ==> !loud@[i - consecutive - 1],
            forall|j: int| 0 <= j && j + 2 < i ==> !loud_run_at(loud@, j),
        decreases n - i,
    {
        if loud[i] {
            if consecutive + 1 >= REQUIRED_BLOCKS {
                let s = i - 2;
                assert(loud_run_at(loud@, s as int));
                return Some(s);
            }
            consecutive = consecutive + 1;
        } else {
            consecutive = 0;
        }
        i = i + 1;
    }
    None
}

/// The first block of the last run of three loud blocks.
fn last_loud_run(loud: &Vec<bool>) -> (r: Option<usize>)
    ensures
        r matches Some(e) ==> loud_run_at(loud@, e as int) && forall|j: int| e < j < loud@.len() ==> !loud_run_at(loud@, j),
        r is None ==> forall|j: int| !loud_run_at(loud@, j),
{
    let n = loud.len();
    let mut consecutive: usize = 0;
    let mut k: usize = n;
    while k > 0
        invariant
            k <= n,
            n == loud@.len(),
            consecutive <= 2,
            k + consecutive <= n,
            forall|m: int| k <= m < k + consecutive ==> loud@[m],
            k + consecutive < n ==> !loud@[k + consecutive],
            forall|j: int| k <= j ==> !loud_run_at(loud@, j),
        decreases k,
    {
        k = k - 1;
        if loud[k] {
            if consecutive + 1 >= REQUIRED_BLOCKS {
                assert(loud_run_at(loud@, k as int));
                return Some(k);
            }
            consecutive = consecutive + 1;
        } else {
            consecutive = 0;
        }
    }
    None
}

/// Finds the blocks to keep when trimming silence (see `trim_range_spec`);
/// `loud[i]` tells whether block `i` is above the silence threshold.
pub fn find_trim_range(loud: &Vec<bool>) -> (r: Option<(usize, usize)>)
    ensures
        r == trim_range_spec(loud@),
        r matches Some((s, e)) ==> {
            &&& s + 3 <= e <= loud@.len()
            &&& loud_run_at(loud@, s as int)
            &&& forall|j: int| 0 <= j < s ==> !loud_run_at(loud@, j)
            &&& loud_run_at(loud@, e - 3)
            &&& forall|j: int| e - 3 < j < loud@.len() ==> !loud_run_at(loud@, j)
        },
        r is None <==> forall|j: int| !loud_run_at(loud@, j),
{
    let s = match first_loud_run(loud) {
        Some(s) => s,
        None => return None,
    };
    let e = match last_loud_run(loud) {
        Some(e) => e,
        None => return None,
    };
    let n = loud.len();
    assert(e + 2 < n);
    proof {
        let a = choose|i: int| loud_run_at(loud@, i) && forall|j: int| 0 <= j < i ==> !loud_run_at(loud@, j);
        assert(a == s) by {
            if a < s {
            } else if a > s {
            }
        }
        let b = choose|i: int| loud_run_at(loud@, i) && forall|j: int| i < j < loud@.len() ==> !loud_run_at(loud@, j);
        assert(b == e) by {
            if b < e {
            } else if b > e {
            }
        }
        assert(s <= e) by {
            if s > e {
            }
        }
    }
    Some((s, e + 3))
}

/// The first index in `[from, to)` whose pixel is loud.
pub open spec fn first_loud_from(loud: Seq<bool>, from: int, to: int) -> Option<int> {
    if exists|k: int| from <= k < to && loud[k] {
        Some(choose|k: int| from <= k < to && loud[k] && forall|j: int| from <= j < k ==> !loud[j])
    } else {
        None
    }
}

/// The state of the pixel scan: where the last slice ended, how many silent
/// pixels were seen in a row, and the slices found so far.
pub open spec fn scan_step(
    silent: Seq<bool>,
    loud: Seq<bool>,
    min_silence: int,
    st: (int, int, Seq<(usize, usize)>),
    i: int,
) -> (int, int, Seq<(usize, usize)>) {
    let last_end = st.0;
    let run = if silent[i] { st.1 + 1 } else { 0 };
    if run >= min_silence {
        let gap_start = if i >= min_silence - 1 { i - (min_silence - 1) } else { 0 };
        match first_loud_from(loud, last_end, gap_start) {
            Some(start) => (i + 1, 0, st.2.push((start as usize, gap_start as usize))),
            None => (last_end, 0, st.2),
        }
    } else {
        (last_end, run, st.2)
    }
}

/// The scan state after the first `k` pixels.
pub open spec fn scan_prefix(silent: Seq<bool>, loud: Seq<bool>, min_silence: int, k: nat) -> (int, int, Seq<(usize, usize)>)
    decreases k,
{
    if k == 0 {
        (0, 0, Seq::empty())
    } else {
        scan_step(silent, loud, min_silence, scan_prefix(silent, loud, min_silence, (k - 1) as nat), k - 1)
    }
}

/// The slices, in pixels, of a waveform view: a run of `min_silence` silent
/// pixels closes a slice that starts at the first loud pixel after the
/// previous slice and ends where the run begins; what follows the last slice
/// forms a final slice up to the end when it holds a loud pixel.
pub open spec fn pixel_slices(silent: Seq<bool>, loud: Seq<bool>, min_silence: int) -> Seq<(usize, usize)> {
    let st = scan_prefix(silent, loud, min_silence, loud.len());
    if st.0 < loud.len() {
        match first_loud_from(loud, st.0, loud.len() as int) {
            Some(start) => st.2.push((start as usize, loud.len() as usize)),
            None => st.2,
        }
    } else {
        st.2
    }
}

/// The first loud pixel of a range is loud, inside it, and the first.
proof fn lemma_first_loud(loud: Seq<bool>, from: int, to: int)
    ensures
        first_loud_from(loud, from, to) matches Some(k) ==> from <= k < to && loud[k]
            && forall|j: int| from <= j < k ==> !loud[j],
        first_loud_from(loud, from, to) is None ==> forall|j: int| from <= j < to ==> !loud[j],
    decreases to - from,
{
    if exists|k: int| from <= k < to && loud[k] {
        if loud[from] {
            assert(from <= from < to && loud[from] && forall|j: int| from <= j < from ==> !loud[j]);
        } else {
            let k0 = choose|k: int| from <= k < to && loud[k];
            assert(from + 1 <= k0 < to && loud[k0]);
            lemma_first_loud(loud, from + 1, to);
            let k = first_loud_from(loud, from + 1, to)->Some_0;
            assert(from <= k < to && loud[k] && forall|j: int| from <= j < k ==> !loud[j]);
        }
    }
}

/// Where the slice at `a` may start from: the start of the view, or the end
/// of the silence that closed the slice before it.
pub open spec fn slice_boundary(slices: Seq<(usize, usize)>, a: int, min_silence: int) -> int {
    if a == 0 { 0 } else { slices[a - 1].1 + min_silence }
}

/// What makes the slice at `a` a slice: it starts at the first loud pixel
/// from its boundary on, and, unless it runs to the end of the view, it is
/// followed by `min_silence` silent pixels.
pub open spec fn is_slice_at(silent: Seq<bool>, loud: Seq<bool>, min_silence: int, slices: Seq<(usize, usize)>, a: int) -> bool {
    let (s, e) = slices[a];
    &&& slice_boundary(slices, a, min_silence) <= s < e
    &&& loud[s as int]
    &&& forall|j: int| slice_boundary(slices, a, min_silence) <= j < s ==> !loud[j]
    &&& e < loud.len() ==> e + min_silence <= loud.len() && forall|j: int| e <= j < e + min_silence ==> #[trigger] silent[j]
}

/// What holds of the pixel scan after `k` pixels: the silent run ends at `k`,
/// and the slices found so far are slices, closed before `k`.
spec fn scan_facts(silent: Seq<bool>, loud: Seq<bool>, m: int, k: int, st: (int, int, Seq<(usize, usize)>)) -> bool {
    let (le, run, sl) = st;
    &&& 0 <= run && 0 <= le && le + run <= k
    &&& forall|j: int| k - run <= j < k ==> #[trigger] silent[j]
    &&& sl.len() == 0 ==> le == 0
    &&& sl.len() > 0 ==> le == sl.last().1 + m
    &&& forall|a: int| 0 <= a < sl.len() ==> #[trigger] is_slice_at(silent, loud, m, sl, a) && sl[a].1 + m <= k
}

proof fn lemma_scan_prefix(silent: Seq<bool>, loud: Seq<bool>, m: int, k: nat)
    requires
        m > 0,
        silent.len() == loud.len(),
        loud.len() <= usize::MAX,
        k <= loud.len(),
    ensures
        scan_facts(silent, loud, m, k as int, scan_prefix(silent, loud, m, k)),
    decreases k,
{
    if k > 0 {
        let i = k - 1;
        lemma_scan_prefix(silent, loud, m, (k - 1) as nat);
        let (le, run, sl) = scan_prefix(silent, loud, m, (k - 1) as nat);
        assert(scan_prefix(silent, loud, m, k) == scan_step(silent, loud, m, scan_prefix(silent, loud, m, (k - 1) as nat), i));
        let run2 = if silent[i] { run + 1 } else { 0 };
        if run2 >= m {
            let gap_start = if i >= m - 1 { i - (m - 1) } else { 0 };
            assert(i >= m - 1);
            lemma_first_loud(loud, le, gap_start);
            match first_loud_from(loud, le, gap_start) {
                Some(start) => {
                    let sl2 = sl.push((start as usize, gap_start as usize));
                    assert(scan_prefix(silent, loud, m, k) == (k as int, 0int, sl2));
                    assert forall|a: int| 0 <= a < sl2.len() implies #[trigger] is_slice_at(silent, loud, m, sl2, a) && sl2[a].1 + m <= k by {
                        if a < sl.len() {
                            assert(sl2[a] == sl[a]);
                            assert(is_slice_at(silent, loud, m, sl, a));
                            if a > 0 {
                                assert(sl2[a - 1] == sl[a - 1]);
                            }
                        } else {
                            assert(sl2[a] == (start as usize, gap_start as usize));
                            assert(slice_boundary(sl2, a, m) == le) by {
                                if a > 0 {
                                    assert(sl2[a - 1] == sl.last());
                                }
                            }
                            assert forall|j: int| gap_start <= j < gap_start + m implies #[trigger] silent[j] by {
                                if j < i {
                                    assert(k - 1 - run <= j);
                                }
                            }
                            assert(gap_start + m <= loud.len());
                        }
                    }
                    assert(sl2.last() == (start as usize, gap_start as usize));
                    assert(scan_facts(silent, loud, m, k as int, (k as int, 0int, sl2)));
                },
                None => {
                    assert(scan_prefix(silent, loud, m, k) == (le, 0int, sl));
                    assert forall|a: int| 0 <= a < sl.len() implies #[trigger] is_slice_at(silent, loud, m, sl, a) && sl[a].1 + m <= k by {
                        assert(is_slice_at(silent, loud, m, sl, a) && sl[a].1 + m <= k - 1);
                    }
                    assert(scan_facts(silent, loud, m, k as int, (le, 0int, sl)));
                },
            }
        } else {
            assert(scan_prefix(silent, loud, m, k) == (le, run2, sl));
            assert forall|j: int| k - run2 <= j < k implies #[trigger] silent[j] by {
                if j < i {
                    assert(k - 1 - run <= j);
                }
            }
            assert forall|a: int| 0 <= a < sl.len() implies #[trigger] is_slice_at(silent, loud, m, sl, a) && sl[a].1 + m <= k by {
                assert(is_slice_at(silent, loud, m, sl, a) && sl[a].1 + m <= k - 1);
            }
            assert(scan_facts(silent, loud, m, k as int, (le, run2, sl)));
        }
    }
}

/// Every slice of a waveform view is a slice (see `is_slice_at`), and the
/// slices are ordered inside the view.
pub proof fn lemma_pixel_slices_are_slices(silent: Seq<bool>, loud: Seq<bool>, min_silence: int)
    requires
        min_silence > 0,
        silent.len() == loud.len(),
        loud.len() <= usize::MAX,
    ensures
        forall|a: int| 0 <= a < pixel_slices(silent, loud, min_silence).len()
            ==> #[trigger] is_slice_at(silent, loud, min_silence, pixel_slices(silent, loud, min_silence), a),
{
    let n = loud.len();
    lemma_scan_prefix(silent, loud, min_silence, n);
    let (le, run, sl) = scan_prefix(silent, loud, min_silence, n);
    assert(scan_facts(silent, loud, min_silence, n as int, (le, run, sl)));
    let r = pixel_slices(silent, loud, min_silence);
    if le < n {
        lemma_first_loud(loud, le, n as int);
        match first_loud_from(loud, le, n as int) {
            Some(start) => {
                assert forall|a: int| 0 <= a < r.len() implies #[trigger] is_slice_at(silent, loud, min_silence, r, a) by {
                    if a < sl.len() {
                        assert(r[a] == sl[a]);
                        assert(is_slice_at(silent, loud, min_silence, sl, a));
                        if a > 0 {
                            assert(r[a - 1] == sl[a - 1]);
                        }
                    } else {
                        assert(r[a] == (start as usize, n as usize));
                        assert(slice_boundary(r, a, min_silence) == le) by {
                            if a > 0 {
                                assert(r[a - 1] == sl.last());
                            }
                        }
                    }
                }
            },
            None => {},
        }
    }
}

/// The first loud pixel in `[from, to)`.
fn find_first_loud(loud: &Vec<bool>, from: usize, to: usize) -> (r: Option<usize>)
    requires
        from <= to <= loud@.len(),
    ensures
        r matches Some(k) ==> first_loud_from(loud@, from as int, to as int) == Some(k as int)
            && from <= k < to && loud@[k as int],
        r is None ==> first_loud_from(loud@, from as int, to as int) is None,
{
    let mut k = from;
    while k < to
        invariant
            from <= k <= to,
            to <= loud@.len(),
            forall|j: int| from <= j < k ==> !loud@[j],
        decreases to - k,
    {
        if loud[k] {
            proof {
                let c = choose|c: int| from <= c < to && loud@[c] && forall|j: int| from <= j < c ==> !loud@[j];
                assert(c == k) by {
                    if c < k {
                    } else if c > k {
                        assert(!loud@[k as int]);
                    }
                }
            }
            return Some(k);
        }
        k = k + 1;
    }
    None
}

/// The slices well-formed: ordered, disjoint, inside the view, each starting
/// at a loud pixel and ending no later than `bound`.
pub open spec fn slices_ordered(loud: Seq<bool>, slices: Seq<(usize, usize)>, bound: int) -> bool {
    &&& forall|a: int| 0 <= a < slices.len() ==> (#[trigger] slices[a]).0 < slices[a].1 <= bound
    &&& forall|a: int| 0 <= a < slices.len() ==> loud[(#[trigger] slices[a]).0 as int]
    &&& forall|a: int, b: int| 0 <= a < b < slices.len() ==> (#[trigger] slices[a]).1 <= (#[trigger] slices[b]).0
}

/// Finds the slices, in pixels, of a waveform view (see `pixel_slices`).
/// `silent[i]` tells whether pixel `i` is below the silence threshold and
/// `loud[i]` whether it is at or above it.
#[verifier::rlimit(40)]
pub fn find_pixel_slices(silent: &Vec<bool>, loud: &Vec<bool>, min_silence: usize) -> (r: Vec<(usize, usize)>)
    requires
        silent@.len() == loud@.len(),
        min_silence > 0,
    ensures
        r@ == pixel_slices(silent@, loud@, min_silence as int),
        slices_ordered(loud@, r@, loud@.len() as int),
        forall|a: int| 0 <= a < r@.len() ==> #[trigger] is_slice_at(silent@, loud@, min_silence as int, r@, a),
{
    let n = loud.len();
    let mut regions: Vec<(usize, usize)> = Vec::new();
    let mut last_end: usize = 0;
    let mut run: usize = 0;
    let mut i: usize = 0;
    while i < n
        invariant
            i <= n,
            n == loud@.len(),
            n == silent@.len(),
            min_silence > 0,
            scan_prefix(silent@, loud@, min_silence as int, i as nat) == (last_end as int, run as int, regions@),
            last_end <= i,
            run + last_end <= i,
            slices_ordered(loud@, regions@, last_end as int),
        decreases n - i,
    {
        let ghost before = regions@;
        let ghost st = scan_prefix(silent@, loud@, min_silence as int, i as nat);
        assert(scan_prefix(silent@, loud@, min_silence as int, (i + 1) as nat)
            == scan_step(silent@, loud@, min_silence as int, st, i as int));
        run = if silent[i] { run + 1 } else { 0 };
        if run >= min_silence {
            let gap_start = if i >= min_silence - 1 { i - (min_silence - 1) } else { 0 };
            match find_first_loud(loud, last_end, gap_start) {
                Some(start) => {
                    regions.push((start, gap_start));
                    proof {
                        assert forall|a: int, b: int| 0 <= a < b < regions@.len() implies (#[trigger] regions@[a]).1 <= (#[trigger] regions@[b]).0 by {
                            if b < before.len() {
                                assert(before[a].1 <= before[b].0);
                            } else {
                                assert(before[a].1 <= last_end);
                            }
                        }
                        assert forall|a: int| 0 <= a < regions@.len() implies loud@[(#[trigger] regions@[a]).0 as int] by {
                            if a < before.len() {
                                assert(regions@[a] == before[a]);
                            }
                        }
                    }
                    last_end = i + 1;
                },
                None => {},
            }
            run = 0;
        }
        i = i + 1;
    }
    if last_end < n {
        match find_first_loud(loud, last_end, n) {
            Some(start) => {
                let ghost before = regions@;
                regions.push((start, n));
                proof {
                    assert forall|a: int, b: int| 0 <= a < b < regions@.len() implies (#[trigger] regions@[a]).1 <= (#[trigger] regions@[b]).0 by {
                        if b < before.len() {
                            assert(before[a].1 <= before[b].0);
                        } else {
                            assert(before[a].1 <= last_end);
                        }
                    }
                    assert forall|a: int| 0 <= a < regions@.len() implies loud@[(#[trigger] regions@[a]).0 as int] by {
                        if a < before.len() {
                            assert(regions@[a] == before[a]);
                        }
                    }
                }
            },
            None => {},
        }
    }
    proof {
        lemma_pixel_slices_are_slices(silent@, loud@, min_silence as int);
        assert(regions@ == pixel_slices(silent@, loud@, min_silence as int));
    }
    regions
}

} // verus!
