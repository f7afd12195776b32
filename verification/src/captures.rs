//! Which directory entries are past captures, and the order they are listed in.
//!
//! Captures are found by name: flat `cloche-shot*.json` sidecars (the current
//! layout) and legacy `cloche-shot*` / `appshot*` directories that hold a
//! `metadata.json`. Listings put the newest capture first; captures made at
//! the same instant keep the order in which they were found.

use vstd::prelude::*;

use crate::strings::ends_with;
use crate::strings::ends_with_str;
use crate::strings::starts_with;
use crate::strings::starts_with_str;

verus! {

/// Where a capture's metadata lives.
#[derive(Debug, Clone, Copy, PartialEq, Eq, Structural)]
pub enum CaptureLayout {
    /// The entry is itself a `<stem>.json` sidecar.
    Flat,
    /// The entry is a directory with a `metadata.json` inside.
    Legacy,
}

/// A capture's name starts with one of the two capture prefixes.
pub open spec fn is_capture_name(name: Seq<char>) -> bool {
    starts_with(name, "cloche-shot"@) || starts_with(name, "appshot"@)
}

/// How a directory entry named `name` holds a capture, if it holds one.
pub open spec fn layout_of(name: Seq<char>, is_dir: bool) -> Option<CaptureLayout> {
    if !is_capture_name(name) {
        None
    } else if is_dir {
        Some(CaptureLayout::Legacy)
    } else if ends_with(name, ".json"@) {
        Some(CaptureLayout::Flat)
    } else {
        None
    }
}

/// Whether the entry name carries a capture prefix.
pub fn is_capture_name_str(name: &str) -> (r: bool)
    ensures
        r == is_capture_name(name@),
{
    starts_with_str(name, "cloche-shot") || starts_with_str(name, "appshot")
}

/// How a directory entry holds a capture: a directory with a capture prefix is
/// a legacy capture, a `.json` file with one a flat sidecar; anything else is
/// not a capture.
pub fn capture_layout(name: &str, is_dir: bool) -> (r: Option<CaptureLayout>)
    ensures
        r == layout_of(name@, is_dir),
{
    if !is_capture_name_str(name) {
        None
    } else if is_dir {
        Some(CaptureLayout::Legacy)
    } else if ends_with_str(name, ".json") {
        Some(CaptureLayout::Flat)
    } else {
        None
    }
}

/// Whether a file in a capture directory is a metadata sidecar: a `.json`
/// file with a capture prefix.
pub fn is_sidecar_name(name: &str) -> (r: bool)
    ensures
        r == (ends_with(name@, ".json"@) && is_capture_name(name@)),
{
    ends_with_str(name, ".json") && is_capture_name_str(name)
}

// ---------------------------------------------------------------------------
// Newest first

/// `a` is a later instant than `b`; an instant is whole seconds since the
/// epoch and the nanoseconds within that second.
pub open spec fn later(a: (i64, u32), b: (i64, u32)) -> bool {
    a.0 > b.0 || (a.0 == b.0 && a.1 > b.1)
}

/// In a newest-first listing of `stamps`, entry `i` comes before entry `j`:
/// it is later, or equally recent and found earlier.
pub open spec fn ahead(stamps: Seq<(i64, u32)>, i: int, j: int) -> bool {
    later(stamps[i], stamps[j]) || (stamps[i] == stamps[j] && i < j)
}

/// `order` lists the first entries of the newest-first listing of `stamps`:
/// distinct valid indices in listing order, each ahead of every index left out.
pub open spec fn listing_prefix(stamps: Seq<(i64, u32)>, order: Seq<usize>) -> bool {
    &&& forall|k: int| 0 <= k < order.len() ==> order[k] < stamps.len()
    &&& forall|a: int, b: int|
        0 <= a < b < order.len() ==> #[trigger] ahead(stamps, order[a] as int, order[b] as int)
    &&& forall|j: int, k: int|
        0 <= j < stamps.len() && !order.contains(j as usize) && 0 <= k < order.len()
            ==> #[trigger] ahead(stamps, order[k] as int, j)
}

/// A sequence that holds every index below `n` is at least `n` long.
proof fn lemma_covering_is_long(order: Seq<usize>, n: nat)
    requires
        n <= usize::MAX,
        forall|j: int| 0 <= j < n ==> #[trigger] order.contains(j as usize),
    ensures
        order.len() >= n,
{
    let ints = order.map_values(|x: usize| x as int);
    assert forall|j: int| #[trigger] vstd::set_lib::set_int_range(0, n as int).contains(j)
        implies ints.to_set().contains(j) by {
        assert(order.contains(j as usize));
        let k = choose|k: int| 0 <= k < order.len() && order[k] == j as usize;
        assert(ints[k] == j);
    }
    vstd::set_lib::lemma_int_range(0, n as int);
    vstd::set_lib::lemma_len_subset(vstd::set_lib::set_int_range(0, n as int), ints.to_set());
    ints.lemma_cardinality_of_set();
}

/// Distinct indices below `n` that leave out `b < n` are fewer than `n`.
proof fn lemma_distinct_missing_one_is_short(order: Seq<usize>, n: nat, b: usize)
    requires
        b < n,
        !order.contains(b),
        forall|k: int| 0 <= k < order.len() ==> order[k] < n,
        forall|x: int, y: int| 0 <= x < y < order.len() ==> order[x] != order[y],
    ensures
        order.len() < n,
{
    let ints = order.map_values(|x: usize| x as int);
    assert(ints.no_duplicates()) by {
        assert forall|x: int, y: int| 0 <= x < ints.len() && 0 <= y < ints.len() && x != y
            implies ints[x] != ints[y] by {
            if x < y {
                assert(order[x] != order[y]);
            } else {
                assert(order[y] != order[x]);
            }
        }
    }
    ints.unique_seq_to_set();
    let room = vstd::set_lib::set_int_range(0, n as int).remove(b as int);
    assert forall|v: int| #[trigger] ints.to_set().contains(v) implies room.contains(v) by {
        let k = choose|k: int| 0 <= k < ints.len() && ints[k] == v;
        assert(order[k] < n);
        if v == b as int {
            assert(order[k] == b);
        }
    }
    vstd::set_lib::lemma_int_range(0, n as int);
    vstd::set_lib::lemma_len_subset(ints.to_set(), room);
}

/// The index of the entry that comes first, in a newest-first listing, among
/// those not yet in `taken`; `None` when every entry is taken.
fn next_newest(stamps: &Vec<(i64, u32)>, taken: &Vec<bool>) -> (r: Option<usize>)
    requires
        taken@.len() == stamps@.len(),
    ensures
        match r {
            Some(b) => {
                &&& b < stamps@.len()
                &&& !taken@[b as int]
                &&& forall|j: int|
                    0 <= j < stamps@.len() && !taken@[j] && j != b ==> ahead(stamps@, b as int, j)
            },
            None => forall|j: int| 0 <= j < stamps@.len() ==> taken@[j],
        },
{
    let n = stamps.len();
    let mut best: Option<usize> = None;
    let mut i: usize = 0;
    while i < n
        invariant
            n == stamps@.len(),
            taken@.len() == n,
            i <= n,
            match best {
                Some(b) => {
                    &&& b < i
                    &&& !taken@[b as int]
                    &&& forall|j: int|
                        0 <= j < i && !taken@[j] && j != b ==> ahead(stamps@, b as int, j)
                },
                None => forall|j: int| 0 <= j < i ==> taken@[j],
            },
        decreases n - i,
    {
        if !taken[i] {
            match best {
                None => {
                    best = Some(i);
                },
                Some(b) => {
                    let (bs, bn) = stamps[b];
                    let (s, ns) = stamps[i];
                    if s > bs || (s == bs && ns > bn) {
                        best = Some(i);
                    }
                },
            }
        }
        i = i + 1;
    }
    best
}

/// The indices of the `limit` newest entries of `stamps`, newest first;
/// entries made at the same instant keep their order. This is the order of a
/// stable sort by descending time, cut to `limit`.
pub fn newest_first(stamps: &Vec<(i64, u32)>, limit: usize) -> (order: Vec<usize>)
    ensures
        order@.len() == if limit < stamps@.len() { limit as int } else { stamps@.len() as int },
        listing_prefix(stamps@, order@),
{
    let n = stamps.len();
    let mut taken: Vec<bool> = Vec::new();
    let mut i: usize = 0;
    while i < n
        invariant
            i <= n,
            taken@.len() == i,
            forall|j: int| 0 <= j < i ==> !taken@[j],
        decreases n - i,
    {
        taken.push(false);
        i = i + 1;
    }
    let mut order: Vec<usize> = Vec::new();
    while order.len() < limit
        invariant
            n == stamps@.len(),
            taken@.len() == n,
            order@.len() <= limit,
            order@.len() <= n,
            forall|j: int| 0 <= j < n ==> (taken@[j] <==> order@.contains(j as usize)),
            listing_prefix(stamps@, order@),
        ensures
            order@.len() == if limit < n { limit as int } else { n as int },
            listing_prefix(stamps@, order@),
        decreases limit - order@.len(),
    {
        let next = next_newest(stamps, &taken);
        match next {
            None => {
                proof {
                    assert forall|j: int| 0 <= j < n implies #[trigger] order@.contains(j as usize) by {
                        assert(taken@[j]);
                    }
                    lemma_covering_is_long(order@, n as nat);
                }
                break;
            },
            Some(b) => {
                let ghost old_order = order@;
                proof {
                    assert(!old_order.contains(b)) by {
                        assert(!taken@[b as int]);
                    }
                    assert forall|x: int, y: int| 0 <= x < y < old_order.len() implies old_order[x]
                        != old_order[y] by {
                        assert(ahead(stamps@, old_order[x] as int, old_order[y] as int));
                    }
                    lemma_distinct_missing_one_is_short(old_order, n as nat, b);
                }
                order.push(b);
                taken.set(b, true);
                proof {
                    let o = order@;
                    assert(o == old_order.push(b));
                    assert forall|k: int| 0 <= k < o.len() implies o[k] < stamps@.len() by {
                        if k < old_order.len() {
                            assert(o[k] == old_order[k]);
                        }
                    }
                    assert forall|a: int, c: int| 0 <= a < c < o.len() implies #[trigger] ahead(
                        stamps@,
                        o[a] as int,
                        o[c] as int,
                    ) by {
                        if c < old_order.len() {
                            assert(o[a] == old_order[a] && o[c] == old_order[c]);
                        } else {
                            assert(o[a] == old_order[a]);
                            assert(!old_order.contains(b));
                        }
                    }
                    assert forall|j: int| 0 <= j < n implies (taken@[j] <==> o.contains(j as usize)) by {
                        if j == b as int {
                            assert(o[o.len() - 1] == b);
                        } else if o.contains(j as usize) {
                            let k = choose|k: int| 0 <= k < o.len() && o[k] == j as usize;
                            assert(k < old_order.len());
                            assert(old_order[k] == j as usize);
                        } else {
                            if old_order.contains(j as usize) {
                                let k = choose|k: int|
                                    0 <= k < old_order.len() && old_order[k] == j as usize;
                                assert(o[k] == j as usize);
                            }
                        }
                    }
                    assert forall|j: int, k: int|
                        0 <= j < stamps@.len() && !o.contains(j as usize) && 0 <= k < o.len()
                            implies #[trigger] ahead(stamps@, o[k] as int, j) by {
                        if !old_order.contains(j as usize) {
                            if k < old_order.len() {
                                assert(o[k] == old_order[k]);
                            } else {
                                assert(o[k] == b);
                                assert(j != b as int) by {
                                    assert(o[o.len() - 1] == b);
                                }
                                assert(!taken@[j] || j == b as int);
                            }
                        } else {
                            let m = choose|m: int|
                                0 <= m < old_order.len() && old_order[m] == j as usize;
                            assert(o[m] == j as usize);
                        }
                    }
                }
            },
        }
    }
    order
}

// ---------------------------------------------------------------------------
// Roots

/// The indices of the first entry of each distinct key, in order: the roots
/// that are scanned when the same directory is named twice.
pub open spec fn first_of_each(keys: Seq<Seq<u8>>, n: int) -> Seq<usize>
    decreases n,
{
    if n <= 0 {
        Seq::empty()
    } else if keys.subrange(0, n - 1).contains(keys[n - 1]) {
        first_of_each(keys, n - 1)
    } else {
        first_of_each(keys, n - 1).push((n - 1) as usize)
    }
}

/// The views of a list of byte strings.
pub open spec fn byte_views(keys: Seq<Vec<u8>>) -> Seq<Seq<u8>> {
    keys.map_values(|k: Vec<u8>| k@)
}

/// Whether two byte strings are equal.
fn bytes_eq(a: &Vec<u8>, b: &Vec<u8>) -> (r: bool)
    ensures
        r == (a@ == b@),
{
    if a.len() != b.len() {
        return false;
    }
    let mut i: usize = 0;
    while i < a.len()
        invariant
            a@.len() == b@.len(),
            i <= a@.len(),
            forall|t: int| 0 <= t < i ==> a@[t] == b@[t],
        decreases a@.len() - i,
    {
        if a[i] != b[i] {
            return false;
        }
        i = i + 1;
    }
    assert(a@ =~= b@);
    true
}

/// Whether `keys[i]` already occurs among the first `i` keys.
fn seen_before(keys: &Vec<Vec<u8>>, i: usize) -> (r: bool)
    requires
        i < keys@.len(),
    ensures
        r == byte_views(keys@).subrange(0, i as int).contains(byte_views(keys@)[i as int]),
{
    let ghost views = byte_views(keys@);
    let mut j: usize = 0;
    while j < i
        invariant
            i < keys@.len(),
            views == byte_views(keys@),
            j <= i,
            forall|t: int| 0 <= t < j ==> views[t] != views[i as int],
        decreases i - j,
    {
        if bytes_eq(&keys[j], &keys[i]) {
            proof {
                assert(views.subrange(0, i as int)[j as int] == views[i as int]);
            }
            return true;
        }
        j = j + 1;
    }
    proof {
        if views.subrange(0, i as int).contains(views[i as int]) {
            let t = choose|t: int|
                0 <= t < i && views.subrange(0, i as int)[t] == views[i as int];
            assert(views[t] == views[i as int]);
        }
    }
    false
}

/// The roots to scan, by index: the first of each distinct key (a root's
/// canonical path), so a directory reached by two names is scanned once.
pub fn first_occurrences(keys: &Vec<Vec<u8>>) -> (r: Vec<usize>)
    ensures
        r@ == first_of_each(byte_views(keys@), keys@.len() as int),
{
    let ghost views = byte_views(keys@);
    let mut r: Vec<usize> = Vec::new();
    let mut i: usize = 0;
    while i < keys.len()
        invariant
            views == byte_views(keys@),
            i <= keys@.len(),
            r@ == first_of_each(views, i as int),
        decreases keys@.len() - i,
    {
        if !seen_before(keys, i) {
            r.push(i);
        }
        i = i + 1;
    }
    r
}

} // verus!
