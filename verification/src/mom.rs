//! Multi-order map ("Mom"): an ascending-sorted list of cells at mixed
//! depths, pairwise non-overlapping, each with an attached value.
//!
//! Entries are keyed by their zuniq, so the sort order is the z-order
//! traversal of the tessellation. Because the subtree below a cell occupies
//! one contiguous zuniq interval, the entries overlapping any query cell form
//! one contiguous run of the sorted sequence: containment and overlap queries
//! are answered by binary search plus bounded neighbour expansion.

use vstd::prelude::*;

verus! {

use crate::zuniq::MAX_DEPTH;
use crate::zuniq::are_overlapping;
use crate::zuniq::decodable;
use crate::zuniq::depth_from_zuniq;
use crate::zuniq::lemma_overlapping_zuniqs_symmetric;
use crate::zuniq::lemma_sandwich;
use crate::zuniq::overlapping_zuniqs;
use crate::zuniq::valid_zuniq;
use crate::zuniq::zuniq_depth;

/// A validation failure, carrying the offending values.
#[derive(Clone, Copy, Debug, PartialEq, Eq, Structural)]
pub enum MomError {
    /// A queried zuniq does not sit at the map's maximum depth.
    WrongDepth { zuniq: u64, expected: u8, actual: u8 },
    /// Two consecutive entries are out of order.
    NotSorted { left: u64, right: u64 },
    /// Two consecutive entries designate overlapping cells.
    OverlappingEntries { left: u64, right: u64, left_depth: u8, left_hash: u64, right_depth: u8, right_hash: u64 },
    /// An entry sits deeper than the map's maximum depth.
    DepthTooDeep { zuniq: u64, depth: u8, depth_max: u8 },
}

/// A multi-order map held in a single vector of (zuniq, value) entries,
/// ascending-sorted by zuniq.
pub struct MomVecImpl<V> {
    depth: u8,
    entries: Vec<(u64, V)>,
}

impl<V> View for MomVecImpl<V> {
    type V = Seq<(u64, V)>;

    /// The abstract state: the stored (zuniq, value) pairs, in storage order.
    closed spec fn view(&self) -> Seq<(u64, V)> {
        self.entries@
    }
}

impl<V> MomVecImpl<V> {
    /// The stored zuniqs, in storage order.
    pub open spec fn zuniqs_seq(self) -> Seq<u64> {
        self@.map_values(|e: (u64, V)| e.0)
    }

    /// The maximum depth the map may contain, as a spec value.
    pub closed spec fn depth_max_spec(self) -> u8 {
        self.depth
    }

    /// Every stored zuniq is valid and not deeper than the maximum depth.
    pub open spec fn entries_valid(self) -> bool {
        forall|i: int|
            0 <= i < self@.len() ==> valid_zuniq(#[trigger] self@[i].0)
                && zuniq_depth(self@[i].0) <= self.depth_max_spec()
    }

    /// The map invariant: valid in-depth entries, strictly ascending zuniqs,
    /// and pairwise non-overlapping cells.
    pub open spec fn wf(self) -> bool {
        &&& self.entries_valid()
        &&& (forall|i: int, j: int|
            #![trigger self@[i].0, self@[j].0]
            0 <= i < j < self@.len() ==> self@[i].0 < self@[j].0)
        &&& (forall|i: int, j: int|
            0 <= i < j < self@.len() ==> !overlapping_zuniqs(
                #[trigger] self@[i].0,
                #[trigger] self@[j].0,
            ))
    }

    /// Builds a map from its maximum depth and an entry list. The entry list
    /// is expected ascending-sorted and non-overlapping; `check_is_mom`
    /// verifies exactly that at run time.
    pub fn new(depth: u8, entries: Vec<(u64, V)>) -> (r: Self)
        requires
            depth <= MAX_DEPTH,
        ensures
            r.depth_max_spec() == depth,
            r@ == entries@,
    {
        MomVecImpl { depth, entries }
    }

    /// Largest depth the map may contain.
    pub fn depth_max(&self) -> (r: u8)
        ensures
            r == self.depth_max_spec(),
    {
        self.depth
    }

    /// Number of stored entries.
    pub fn len(&self) -> (r: usize)
        ensures
            r == self@.len(),
    {
        self.entries.len()
    }

    /// All stored zuniqs, ascending along the z-order curve.
    pub fn zuniqs(&self) -> (r: Vec<u64>)
        ensures
            r@ == self.zuniqs_seq(),
    {
        let n = self.entries.len();
        let mut r: Vec<u64> = Vec::new();
        let mut k: usize = 0;
        while k < n
            invariant
                n == self@.len(),
                k <= n,
                r@.len() == k,
                forall|m: int| 0 <= m < k ==> r@[m] == self@[m].0,
            decreases n - k,
        {
            r.push(self.entries[k].0);
            k += 1;
        }
        proof {
            assert(r@ =~= self.zuniqs_seq());
        }
        r
    }

    /// All entries, ascending along the z-order curve, as (zuniq, value
    /// reference) pairs.
    pub fn entries(&self) -> (r: Vec<(u64, &V)>)
        ensures
            r@.len() == self@.len(),
            forall|m: int|
                0 <= m < r@.len() ==> (#[trigger] r@[m]).0 == self@[m].0 && r@[m].1
                    == self@[m].1,
    {
        let n = self.entries.len();
        let mut r: Vec<(u64, &V)> = Vec::new();
        let mut k: usize = 0;
        while k < n
            invariant
                n == self@.len(),
                k <= n,
                r@.len() == k,
                forall|m: int|
                    0 <= m < k ==> (#[trigger] r@[m]).0 == self@[m].0 && r@[m].1
                        == self@[m].1,
            decreases n - k,
        {
            let e = &self.entries[k];
            r.push((e.0, &e.1));
            k += 1;
        }
        r
    }

    /// Checks that the given zuniq sits exactly at the map's maximum depth,
    /// the depth at which containment queries are expressed.
    pub fn check_zuniq_depth_is_depth_max(&self, zuniq_at_depth_max: u64) -> (r: Result<
        (),
        MomError,
    >)
        requires
            decodable(zuniq_at_depth_max),
        ensures
            r is Ok <==> zuniq_depth(zuniq_at_depth_max) == self.depth_max_spec(),
            r matches Err(e) ==> e == (MomError::WrongDepth {
                zuniq: zuniq_at_depth_max,
                expected: self.depth_max_spec(),
                actual: zuniq_depth(zuniq_at_depth_max),
            }),
    {
        let depth = depth_from_zuniq(zuniq_at_depth_max);
        if depth == self.depth {
            Ok(())
        } else {
            Err(
                MomError::WrongDepth {
                    zuniq: zuniq_at_depth_max,
                    expected: self.depth,
                    actual: depth,
                },
            )
        }
    }
}

/// Strict ascent of every adjacent pair propagates to every pair.
proof fn lemma_sorted_from_adjacent(zs: Seq<u64>, i: int, j: int)
    requires
        0 <= i < j < zs.len(),
        forall|k: int| 0 <= k && k + 1 < zs.len() ==> #[trigger] zs[k] < zs[k + 1],
    ensures
        zs[i] < zs[j],
    decreases j - i,
{
    if j > i + 1 {
        lemma_sorted_from_adjacent(zs, i, j - 1);
    }
}

/// In an ascending sequence of valid zuniqs, non-overlap of every adjacent
/// pair propagates to every pair: an overlapping pair at distance two or more
/// would sandwich an entry overlapping one of its ends.
proof fn lemma_nonoverlap_from_adjacent(zs: Seq<u64>, i: int, j: int)
    requires
        0 <= i < j < zs.len(),
        forall|k: int| 0 <= k < zs.len() ==> valid_zuniq(#[trigger] zs[k]),
        forall|k: int| 0 <= k && k + 1 < zs.len() ==> #[trigger] zs[k] < zs[k + 1],
        forall|k: int|
            0 <= k && k + 1 < zs.len() ==> !overlapping_zuniqs(#[trigger] zs[k], zs[k + 1]),
    ensures
        !overlapping_zuniqs(zs[i], zs[j]),
    decreases j - i,
{
    if j > i + 1 {
        lemma_nonoverlap_from_adjacent(zs, i + 1, j);
        if overlapping_zuniqs(zs[i], zs[j]) {
            lemma_sorted_from_adjacent(zs, i + 1, j);
            lemma_sandwich(zs[i], zs[i + 1], zs[j]);
            assert(false);
        }
    }
}

impl<V> MomVecImpl<V> {
    /// Checking only adjacent pairs establishes the whole invariant.
    proof fn lemma_adjacent_implies_wf(self)
        requires
            self.entries_valid(),
            forall|k: int|
                0 <= k && k + 1 < self@.len() ==> (#[trigger] self@[k].0)
                    < self@[k + 1].0,
            forall|k: int|
                0 <= k && k + 1 < self@.len() ==> !overlapping_zuniqs(
                    #[trigger] self@[k].0,
                    self@[k + 1].0,
                ),
        ensures
            self.wf(),
    {
        let zs = self.zuniqs_seq();
        assert forall|i: int, j: int|
            #![trigger self@[i].0, self@[j].0]
            0 <= i < j < self@.len() implies self@[i].0 < self@[j].0
            && !overlapping_zuniqs(self@[i].0, self@[j].0) by {
            assert(forall|k: int| 0 <= k < zs.len() ==> #[trigger] zs[k] == self@[k].0);
            lemma_sorted_from_adjacent(zs, i, j);
            lemma_nonoverlap_from_adjacent(zs, i, j);
        }
    }

    /// Walks the entries once and reports the first violation of the map
    /// invariant: an entry deeper than the maximum depth, a non-ascending
    /// adjacent pair, or an overlapping adjacent pair. Checking adjacent
    /// pairs suffices: success is equivalent to the full invariant.
    pub fn check_is_mom(&self) -> (r: Result<(), MomError>)
        requires
            forall|i: int| 0 <= i < self@.len() ==> valid_zuniq(#[trigger] self@[i].0),
        ensures
            r is Ok <==> self.wf(),
            r matches Err(e) ==> match e {
                MomError::DepthTooDeep { zuniq, depth, depth_max } => depth_max
                    == self.depth_max_spec() && depth == zuniq_depth(zuniq) && depth
                    > self.depth_max_spec() && (exists|i: int|
                    0 <= i < self@.len() && #[trigger] self@[i].0 == zuniq),
                MomError::NotSorted { left, right } => left >= right && (exists|i: int|
                    0 <= i && i + 1 < self@.len() && #[trigger] self@[i].0 == left
                        && self@[i + 1].0 == right),
                MomError::OverlappingEntries { left, right, left_depth, left_hash, right_depth, right_hash } => overlapping_zuniqs(left, right)
                    && left_depth == zuniq_depth(left) && right_depth == zuniq_depth(right)
                    && (exists|i: int|
                    0 <= i && i + 1 < self@.len() && #[trigger] self@[i].0 == left
                        && self@[i + 1].0 == right),
                MomError::WrongDepth { .. } => false,
            },
    {
        let n = self.entries.len();
        let mut i: usize = 0;
        while i < n
            invariant
                n == self@.len(),
                i <= n,
                forall|k: int|
                    0 <= k < self@.len() ==> valid_zuniq(#[trigger] self@[k].0),
                forall|k: int|
                    0 <= k < i ==> zuniq_depth(#[trigger] self@[k].0) <= self.depth,
                forall|k: int|
                    0 <= k && k + 1 < self@.len() && k < i ==> (
                    #[trigger] self@[k].0) < self@[k + 1].0,
                forall|k: int|
                    0 <= k && k + 1 < self@.len() && k < i ==> !overlapping_zuniqs(
                        #[trigger] self@[k].0,
                        self@[k + 1].0,
                    ),
            decreases n - i,
        {
            let (zl, dl, hl) = {
                let zl = self.entries[i].0;
                let (dl, hl) = crate::zuniq::from_zuniq(zl);
                (zl, dl, hl)
            };
            if dl > self.depth {
                proof {
                    assert(!self.wf());
                }
                return Err(MomError::DepthTooDeep { zuniq: zl, depth: dl, depth_max: self.depth });
            }
            if i + 1 < n {
                let zr = self.entries[i + 1].0;
                if zl >= zr {
                    proof {
                        assert(!self.wf());
                    }
                    return Err(MomError::NotSorted { left: zl, right: zr });
                }
                let (dr, hr) = crate::zuniq::from_zuniq(zr);
                if crate::zuniq::are_overlapping_cells(dl, hl, dr, hr) {
                    proof {
                        assert(overlapping_zuniqs(zl, zr));
                        assert(!self.wf());
                    }
                    return Err(
                        MomError::OverlappingEntries {
                            left: zl,
                            right: zr,
                            left_depth: dl,
                            left_hash: hl,
                            right_depth: dr,
                            right_hash: hr,
                        },
                    );
                }
            }
            i += 1;
        }
        proof {
            self.lemma_adjacent_implies_wf();
        }
        Ok(())
    }

    /// At most one entry overlaps a query cell at least as deep as the map's
    /// maximum depth: two of them would both be ancestors of the query cell,
    /// hence overlap each other. A containment query therefore has at most
    /// one answer.
    pub proof fn lemma_containing_unique(self, zuniq_q: u64, i: int, j: int)
        requires
            self.wf(),
            valid_zuniq(zuniq_q),
            self.depth_max_spec() <= zuniq_depth(zuniq_q),
            0 <= i < self@.len(),
            0 <= j < self@.len(),
            overlapping_zuniqs(self@[i].0, zuniq_q),
            overlapping_zuniqs(self@[j].0, zuniq_q),
        ensures
            i == j,
    {
        if i != j {
            let zi = self@[i].0;
            let zj = self@[j].0;
            crate::zuniq::lemma_shallower_overlap_contains(zi, zuniq_q);
            crate::zuniq::lemma_shallower_overlap_contains(zj, zuniq_q);
            crate::zuniq::lemma_intersecting_zuniqs_overlap(zi, zj, zuniq_q);
            lemma_overlapping_zuniqs_symmetric(zi, zj);
            assert(false);
        }
    }

    /// Binary search for the index where `zuniq` sorts into the entries.
    fn lower_bound(&self, zuniq: u64) -> (i: usize)
        requires
            forall|p: int, q: int|
                #![trigger self@[p].0, self@[q].0]
                0 <= p < q < self@.len() ==> self@[p].0 < self@[q].0,
        ensures
            i <= self@.len(),
            forall|k: int| 0 <= k < i ==> (#[trigger] self@[k].0) < zuniq,
            forall|k: int| i <= k < self@.len() ==> (#[trigger] self@[k].0) >= zuniq,
    {
        let mut lo: usize = 0;
        let mut hi: usize = self.entries.len();
        while lo < hi
            invariant
                lo <= hi <= self@.len(),
                forall|p: int, q: int|
                    #![trigger self@[p].0, self@[q].0]
                    0 <= p < q < self@.len() ==> self@[p].0 < self@[q].0,
                forall|k: int| 0 <= k < lo ==> (#[trigger] self@[k].0) < zuniq,
                forall|k: int| hi <= k < self@.len() ==> (#[trigger] self@[k].0) >= zuniq,
            decreases hi - lo,
        {
            let mid = lo + (hi - lo) / 2;
            if self.entries[mid].0 < zuniq {
                lo = mid + 1;
            } else {
                hi = mid;
            }
        }
        lo
    }

    /// Returns the entry, if any, whose cell overlaps the cell of the given
    /// zuniq, without checking that the query sits at the maximum depth. On a
    /// binary-search miss only the two neighbours of the insertion point can
    /// overlap the query, so testing them decides the answer.
    pub fn get_cell_containing_unsafe(&self, hash_at_depth_max: u64) -> (r: Option<(u64, &V)>)
        requires
            self.wf(),
            valid_zuniq(hash_at_depth_max),
        ensures
            (r is Some) <==> (exists|k: int|
                0 <= k < self@.len() && overlapping_zuniqs(
                    #[trigger] self@[k].0,
                    hash_at_depth_max,
                )),
            r matches Some(p) ==> exists|k: int|
                0 <= k < self@.len() && (#[trigger] self@[k].0) == p.0 && self@[k].1 == p.1
                    && overlapping_zuniqs(p.0, hash_at_depth_max),
    {
        let q = hash_at_depth_max;
        let n = self.entries.len();
        let i = self.lower_bound(q);
        if i < n && self.entries[i].0 == q {
            let e = &self.entries[i];
            return Some((e.0, &e.1));
        }
        if i > 0 {
            let e = &self.entries[i - 1];
            if are_overlapping(q, e.0) {
                proof {
                    lemma_overlapping_zuniqs_symmetric(q, self@[i - 1].0);
                }
                return Some((e.0, &e.1));
            }
        }
        if i < n {
            let e = &self.entries[i];
            if are_overlapping(q, e.0) {
                proof {
                    lemma_overlapping_zuniqs_symmetric(q, self@[i as int].0);
                }
                return Some((e.0, &e.1));
            }
        }
        proof {
            assert forall|k: int| 0 <= k < self@.len() implies !overlapping_zuniqs(
                self@[k].0,
                q,
            ) by {
                let zk = self@[k].0;
                if overlapping_zuniqs(zk, q) {
                    if k + 1 < i {
                        let zm = self@[i - 1].0;
                        lemma_overlapping_zuniqs_symmetric(q, zm);
                        lemma_sandwich(zk, zm, q);
                        assert(false);
                    } else if k == i - 1 {
                        lemma_overlapping_zuniqs_symmetric(q, zk);
                        assert(false);
                    } else if k == i {
                        lemma_overlapping_zuniqs_symmetric(q, zk);
                        assert(false);
                    } else {
                        let zm = self@[i as int].0;
                        lemma_overlapping_zuniqs_symmetric(q, zm);
                        lemma_sandwich(zk, zm, q);
                        assert(false);
                    }
                }
            }
        }
        None
    }

    /// Returns the entry, if any, containing the given cell expressed at the
    /// map's maximum depth, after validating that depth.
    pub fn get_cell_containing(&self, zuniq_at_depth_max: u64) -> (r: Result<
        Option<(u64, &V)>,
        MomError,
    >)
        requires
            self.wf(),
            valid_zuniq(zuniq_at_depth_max),
        ensures
            r is Ok <==> zuniq_depth(zuniq_at_depth_max) == self.depth_max_spec(),
            r matches Err(e) ==> e == (MomError::WrongDepth {
                zuniq: zuniq_at_depth_max,
                expected: self.depth_max_spec(),
                actual: zuniq_depth(zuniq_at_depth_max),
            }),
            r matches Ok(opt) ==> ((opt is Some) <==> (exists|k: int|
                0 <= k < self@.len() && overlapping_zuniqs(
                    #[trigger] self@[k].0,
                    zuniq_at_depth_max,
                ))),
            r matches Ok(opt) ==> (opt matches Some(p) ==> exists|k: int|
                0 <= k < self@.len() && (#[trigger] self@[k].0) == p.0 && self@[k].1 == p.1
                    && overlapping_zuniqs(p.0, zuniq_at_depth_max)),
    {
        match self.check_zuniq_depth_is_depth_max(zuniq_at_depth_max) {
            Ok(()) => Ok(self.get_cell_containing_unsafe(zuniq_at_depth_max)),
            Err(e) => Err(e),
        }
    }

    /// The result `rs` of an overlap query for `zuniq` is the contiguous run
    /// `[lo, hi)` of the stored entries, and that run holds exactly the
    /// entries whose cells overlap the queried cell.
    pub open spec fn overlapped_run(self, zuniq: u64, rs: Seq<(u64, &V)>, lo: int, hi: int) -> bool {
        &&& 0 <= lo <= hi <= self@.len()
        &&& rs.len() == hi - lo
        &&& (forall|m: int|
            0 <= m < hi - lo ==> (#[trigger] rs[m]).0 == self@[lo + m].0 && rs[m].1 == self@[lo
                + m].1)
        &&& (forall|k: int|
            0 <= k < self@.len() ==> (overlapping_zuniqs(#[trigger] self@[k].0, zuniq) <==> lo <= k
                < hi))
    }

    /// Returns all entries whose cells overlap the cell of the given zuniq.
    /// They form one contiguous run of the stored sequence, found by binary
    /// search and neighbour expansion, and are returned ascending.
    pub fn get_overlapped_cells(&self, zuniq: u64) -> (r: Vec<(u64, &V)>)
        requires
            self.wf(),
            valid_zuniq(zuniq),
        ensures
            exists|lo: int, hi: int| #[trigger] self.overlapped_run(zuniq, r@, lo, hi),
            r@.len() <= self@.len(),
            forall|m: int| 0 <= m < r@.len() ==> overlapping_zuniqs((#[trigger] r@[m]).0, zuniq),
            forall|m1: int, m2: int|
                #![trigger r@[m1].0, r@[m2].0]
                0 <= m1 < m2 < r@.len() ==> r@[m1].0 < r@[m2].0,
    {
        let q = zuniq;
        let n = self.entries.len();
        let i0 = self.lower_bound(q);
        let mut s = i0;
        let mut e = i0;
        if i0 < n && self.entries[i0].0 == q {
            e = i0 + 1;
        }
        while s > 0
            invariant
                self.wf(),
                valid_zuniq(q),
                n == self@.len(),
                s <= i0 <= e <= n,
                forall|m: int| s <= m < e ==> overlapping_zuniqs(#[trigger] self@[m].0, q),
                forall|k: int| 0 <= k < i0 ==> (#[trigger] self@[k].0) < q,
                forall|k: int| i0 <= k < n ==> (#[trigger] self@[k].0) >= q,
                e == i0 + 1 ==> i0 < n && self@[i0 as int].0 == q,
                e == i0 || e == i0 + 1,
            ensures
                s == 0 || !overlapping_zuniqs(self@[s - 1].0, q),
            decreases s,
        {
            let prev = self.entries[s - 1].0;
            if are_overlapping(q, prev) {
                proof {
                    lemma_overlapping_zuniqs_symmetric(q, self@[s - 1].0);
                }
                s -= 1;
            } else {
                proof {
                    lemma_overlapping_zuniqs_symmetric(q, self@[s - 1].0);
                }
                break ;
            }
        }
        while e < n
            invariant
                self.wf(),
                valid_zuniq(q),
                n == self@.len(),
                s <= i0 <= e <= n,
                forall|m: int| s <= m < e ==> overlapping_zuniqs(#[trigger] self@[m].0, q),
                forall|k: int| 0 <= k < i0 ==> (#[trigger] self@[k].0) < q,
                forall|k: int| i0 <= k < n ==> (#[trigger] self@[k].0) >= q,
                s == 0 || !overlapping_zuniqs(self@[s - 1].0, q),
            ensures
                s == 0 || !overlapping_zuniqs(self@[s - 1].0, q),
                e == n || !overlapping_zuniqs(self@[e as int].0, q),
            decreases n - e,
        {
            let next = self.entries[e].0;
            if are_overlapping(q, next) {
                proof {
                    lemma_overlapping_zuniqs_symmetric(q, self@[e as int].0);
                }
                e += 1;
            } else {
                proof {
                    lemma_overlapping_zuniqs_symmetric(q, self@[e as int].0);
                }
                break ;
            }
        }
        let mut r: Vec<(u64, &V)> = Vec::new();
        let mut k = s;
        while k < e
            invariant
                n == self@.len(),
                s <= k <= e <= n,
                r@.len() == k - s,
                forall|m: int|
                    0 <= m < k - s ==> (#[trigger] r@[m]).0 == self@[s + m].0 && r@[m].1 == self@[s
                        + m].1,
            decreases e - k,
        {
            let ent = &self.entries[k];
            r.push((ent.0, &ent.1));
            k += 1;
        }
        proof {
            assert forall|k2: int| 0 <= k2 < self@.len() implies (overlapping_zuniqs(
                self@[k2].0,
                q,
            ) <==> s <= k2 < e) by {
                if overlapping_zuniqs(self@[k2].0, q) && !(s <= k2 < e) {
                    let zk = self@[k2].0;
                    if k2 < s {
                        let zm = self@[s - 1].0;
                        if k2 == s - 1 {
                            assert(false);
                        } else {
                            lemma_sandwich(zk, zm, q);
                            assert(false);
                        }
                    } else {
                        let zm = self@[e as int].0;
                        assert(zm != q);
                        if k2 == e {
                            assert(false);
                        } else {
                            lemma_sandwich(zk, zm, q);
                            assert(false);
                        }
                    }
                }
            }
            assert(self.overlapped_run(q, r@, s as int, e as int));
        }
        r
    }
}

} // verus!
