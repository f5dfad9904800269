//! Codec between cell designators and `zuniq` values, 32-bit instantiation.
//!
//! A cell of the hierarchical tessellation is designated by a `depth` and a
//! `hash` index at that depth: there are 12 base cells at depth 0 and each
//! cell splits into 4 children one level down, so depth `d` has `12 * 4^d`
//! cells. The `zuniq` coding of a cell appends a sentinel bit 1 below the
//! hash and pads with zero bits up to the 32-bit width:
//! `zuniq = ((hash << 1) | 1) << (2 * (MAX_DEPTH - depth))`.
//! The position of the lowest set bit thus codes the depth, and the numeric
//! order of zuniqs follows the z-order traversal of the tessellation: the
//! subtree below a cell occupies one contiguous interval of zuniq values.

use vstd::prelude::*;

verus! {

use vstd::std_specs::bits::axiom_u32_trailing_zeros;
use vstd::std_specs::bits::u32_trailing_zeros;

/// Number of unused high bits, not counting the sentinel bit.
pub const N_RESERVED_BITS: u8 = 2;
/// Number of bits coding a sub-cell index relative to its direct parent.
pub const DIM: u8 = 2;
/// Number of cells at depth 0.
pub const N_D0_CELLS: u8 = 12;
/// Number of bits coding the base (depth 0) cell index.
pub const N_D0_BITS: u8 = 4;
/// Number of bits of the zuniq integer type.
pub const N_BITS: u8 = 32;
/// Deepest tessellation level codable on 32 bits.
pub const MAX_DEPTH: u8 = (N_BITS - N_RESERVED_BITS - N_D0_BITS) / DIM;

/// Number of cells at `depth`: `12 * 4^depth`.
pub open spec fn n_cells(depth: u8) -> u32
    recommends
        depth <= MAX_DEPTH,
{
    (N_D0_CELLS as u32) << ((DIM * depth) as u32)
}

/// A designator is valid when its depth is codable and its hash indexes a
/// cell existing at that depth.
pub open spec fn valid_cell(depth: u8, hash: u32) -> bool {
    depth <= MAX_DEPTH && hash < n_cells(depth)
}

/// Number of trailing zero bits in the zuniq of a cell at `depth`.
pub open spec fn shift_of_depth(depth: u8) -> u32
    recommends
        depth <= MAX_DEPTH,
{
    ((MAX_DEPTH - depth) * DIM) as u32
}

/// The zuniq coding a cell: the hash, a sentinel bit, then zero padding.
pub open spec fn zuniq_of(depth: u8, hash: u32) -> u32
    recommends
        valid_cell(depth, hash),
{
    ((hash << 1u32) | 1u32) << shift_of_depth(depth)
}

/// Lower bound (inclusive) of the zuniq interval of a cell's subtree.
pub open spec fn cell_lo(depth: u8, hash: u32) -> u32
    recommends
        valid_cell(depth, hash),
{
    hash << ((shift_of_depth(depth) + 1) as u32)
}

/// Upper bound (exclusive) of the zuniq interval of a cell's subtree.
pub open spec fn cell_hi(depth: u8, hash: u32) -> u32
    recommends
        valid_cell(depth, hash),
{
    ((hash + 1) as u32) << ((shift_of_depth(depth) + 1) as u32)
}

/// Two cells overlap iff one is an ancestor of the other or they are equal:
/// at equal depths the hashes must agree, else the deeper hash, brought back
/// to the shallower depth, must equal the shallower hash.
pub open spec fn overlapping_cells(depth_l: u8, hash_l: u32, depth_r: u8, hash_r: u32) -> bool
    recommends
        depth_l <= MAX_DEPTH,
        depth_r <= MAX_DEPTH,
{
    if depth_l == depth_r {
        hash_l == hash_r
    } else if depth_l < depth_r {
        hash_l == hash_r >> (((depth_r - depth_l) * DIM) as u32)
    } else {
        hash_r == hash_l >> (((depth_l - depth_r) * DIM) as u32)
    }
}

/// The z-order strict precedence of two non-overlapping cells: comparison of
/// the hashes brought back to the shallower of the two depths.
pub open spec fn zorder_lt(depth_l: u8, hash_l: u32, depth_r: u8, hash_r: u32) -> bool
    recommends
        depth_l <= MAX_DEPTH,
        depth_r <= MAX_DEPTH,
{
    if depth_l <= depth_r {
        hash_l < hash_r >> (((depth_r - depth_l) * DIM) as u32)
    } else {
        hash_l >> (((depth_l - depth_r) * DIM) as u32) < hash_r
    }
}

/// A zuniq decodes without under- or overflow: nonzero, with at most
/// `2 * MAX_DEPTH` trailing zero bits.
pub open spec fn decodable(zuniq: u32) -> bool {
    zuniq != 0 && u32_trailing_zeros(zuniq) <= (MAX_DEPTH * DIM) as u32
}

/// Depth decoded from a zuniq: `MAX_DEPTH` minus half the trailing zero count.
pub open spec fn zuniq_depth(zuniq: u32) -> u8
    recommends
        decodable(zuniq),
{
    (MAX_DEPTH - u32_trailing_zeros(zuniq) / 2) as u8
}

/// Hash decoded from a zuniq: the bits above the lowest set (sentinel) bit.
pub open spec fn zuniq_hash(zuniq: u32) -> u32
    recommends
        decodable(zuniq),
{
    zuniq >> ((u32_trailing_zeros(zuniq) + 1) as u32)
}

/// A zuniq is valid when it is the coding of a valid cell: nonzero, an even
/// trailing zero count of at most `2 * MAX_DEPTH`, and an in-range hash.
pub open spec fn valid_zuniq(zuniq: u32) -> bool {
    decodable(zuniq) && u32_trailing_zeros(zuniq) % 2 == 0 && zuniq_hash(zuniq) < n_cells(
        zuniq_depth(zuniq),
    )
}

/// Overlap predicate carried over to the cells coded by two zuniqs.
pub open spec fn overlapping_zuniqs(zuniq_l: u32, zuniq_r: u32) -> bool
    recommends
        decodable(zuniq_l),
        decodable(zuniq_r),
{
    overlapping_cells(
        zuniq_depth(zuniq_l),
        zuniq_hash(zuniq_l),
        zuniq_depth(zuniq_r),
        zuniq_hash(zuniq_r),
    )
}

/// A cell's zuniq lies strictly inside the zuniq interval of its subtree.
pub proof fn lemma_cell_interval(depth: u8, hash: u32)
    by (bit_vector)
    requires
        valid_cell(depth, hash),
    ensures
        cell_lo(depth, hash) < zuniq_of(depth, hash),
        zuniq_of(depth, hash) < cell_hi(depth, hash),
{
}

/// Bit-level facts about the coding: the sentinel is the lowest set bit and
/// the hash sits just above it.
proof fn lemma_encode_bits(depth: u8, hash: u32)
    by (bit_vector)
    requires
        valid_cell(depth, hash),
    ensures
        zuniq_of(depth, hash) != 0,
        (zuniq_of(depth, hash) >> shift_of_depth(depth)) & 1u32 == 1u32,
        zuniq_of(depth, hash) >> ((shift_of_depth(depth) + 1) as u32) == hash,
        forall|j: u32|
            j < shift_of_depth(depth) ==> #[trigger] (zuniq_of(depth, hash) >> j) & 1u32 == 0u32,
{
}

/// The trailing zero count of a coded cell is exactly `shift_of_depth`.
proof fn lemma_encode_trailing_zeros(depth: u8, hash: u32)
    requires
        valid_cell(depth, hash),
    ensures
        u32_trailing_zeros(zuniq_of(depth, hash)) == shift_of_depth(depth),
{
    let z = zuniq_of(depth, hash);
    let s = shift_of_depth(depth);
    lemma_encode_bits(depth, hash);
    axiom_u32_trailing_zeros(z);
    let t = u32_trailing_zeros(z) as u32;
    if t < s {
        assert((z >> t) & 1u32 == 0u32);
    } else if t > s {
        assert((z >> s) & 1u32 == 0u32);
    }
}

/// Coding then decoding gives the cell back: the round trip is exact for
/// every valid cell designator.
pub proof fn lemma_round_trip(depth: u8, hash: u32)
    requires
        valid_cell(depth, hash),
    ensures
        valid_zuniq(zuniq_of(depth, hash)),
        zuniq_depth(zuniq_of(depth, hash)) == depth,
        zuniq_hash(zuniq_of(depth, hash)) == hash,
        zuniq_of(depth, hash) != 0,
{
    lemma_encode_bits(depth, hash);
    lemma_encode_trailing_zeros(depth, hash);
}

/// Reassembling the decoded hash, sentinel and padding gives the zuniq back.
proof fn lemma_decode_bits(zuniq: u32, t: u32)
    by (bit_vector)
    requires
        t <= 26,
        (zuniq >> t) & 1u32 == 1u32,
        zuniq << vstd::prelude::sub(32u32, t) == 0,
    ensures
        zuniq == (((zuniq >> ((t + 1) as u32)) << 1u32) | 1u32) << t,
{
}

/// Decoding then coding gives the zuniq back: a valid zuniq is the coding of
/// the valid cell it decodes to.
pub proof fn lemma_decode_encode(zuniq: u32)
    requires
        valid_zuniq(zuniq),
    ensures
        valid_cell(zuniq_depth(zuniq), zuniq_hash(zuniq)),
        zuniq_of(zuniq_depth(zuniq), zuniq_hash(zuniq)) == zuniq,
{
    axiom_u32_trailing_zeros(zuniq);
    let t = u32_trailing_zeros(zuniq) as u32;
    lemma_decode_bits(zuniq, t);
    assert(shift_of_depth(zuniq_depth(zuniq)) == t);
}

/// Every cell overlaps itself.
pub proof fn lemma_overlap_reflexive(depth: u8, hash: u32)
    ensures
        overlapping_cells(depth, hash, depth, hash),
{
}

/// The overlap predicate is symmetric.
pub proof fn lemma_overlap_symmetric(depth_l: u8, hash_l: u32, depth_r: u8, hash_r: u32)
    ensures
        overlapping_cells(depth_l, hash_l, depth_r, hash_r) == overlapping_cells(
            depth_r,
            hash_r,
            depth_l,
            hash_l,
        ),
{
}

/// Overlapping cells have nested subtree intervals: the shallower one's
/// interval contains the deeper one's.
pub proof fn lemma_overlap_nested(depth_l: u8, hash_l: u32, depth_r: u8, hash_r: u32)
    by (bit_vector)
    requires
        valid_cell(depth_l, hash_l),
        valid_cell(depth_r, hash_r),
        depth_l <= depth_r,
        overlapping_cells(depth_l, hash_l, depth_r, hash_r),
    ensures
        cell_lo(depth_l, hash_l) <= cell_lo(depth_r, hash_r),
        cell_hi(depth_r, hash_r) <= cell_hi(depth_l, hash_l),
{
}

/// Non-overlapping cells have disjoint subtree intervals, ordered by the
/// z-order precedence of the cells, which is a strict total order on them.
#[verifier::rlimit(100)]
#[verifier::spinoff_prover]
pub proof fn lemma_no_overlap_separated(depth_l: u8, hash_l: u32, depth_r: u8, hash_r: u32)
    by (bit_vector)
    requires
        valid_cell(depth_l, hash_l),
        valid_cell(depth_r, hash_r),
        !overlapping_cells(depth_l, hash_l, depth_r, hash_r),
    ensures
        zorder_lt(depth_l, hash_l, depth_r, hash_r) || zorder_lt(depth_r, hash_r, depth_l, hash_l),
        !(zorder_lt(depth_l, hash_l, depth_r, hash_r) && zorder_lt(
            depth_r,
            hash_r,
            depth_l,
            hash_l,
        )),
        zorder_lt(depth_l, hash_l, depth_r, hash_r) ==> cell_hi(depth_l, hash_l) <= cell_lo(
            depth_r,
            hash_r,
        ),
        zorder_lt(depth_r, hash_r, depth_l, hash_l) ==> cell_hi(depth_r, hash_r) <= cell_lo(
            depth_l,
            hash_l,
        ),
{
}

/// Cells whose subtree intervals share a point overlap.
pub proof fn lemma_intersecting_cells_overlap(
    depth_l: u8,
    hash_l: u32,
    depth_r: u8,
    hash_r: u32,
    x: u32,
)
    requires
        valid_cell(depth_l, hash_l),
        valid_cell(depth_r, hash_r),
        cell_lo(depth_l, hash_l) <= x < cell_hi(depth_l, hash_l),
        cell_lo(depth_r, hash_r) <= x < cell_hi(depth_r, hash_r),
    ensures
        overlapping_cells(depth_l, hash_l, depth_r, hash_r),
{
    if !overlapping_cells(depth_l, hash_l, depth_r, hash_r) {
        lemma_no_overlap_separated(depth_l, hash_l, depth_r, hash_r);
    }
}

/// Non-overlapping cells are coded in z-order: the zuniq order of two such
/// cells agrees with their z-order precedence, and the whole subtree interval
/// of the earlier one lies below the whole interval of the later one.
pub proof fn lemma_zorder_preserved(depth_l: u8, hash_l: u32, depth_r: u8, hash_r: u32)
    requires
        valid_cell(depth_l, hash_l),
        valid_cell(depth_r, hash_r),
        !overlapping_cells(depth_l, hash_l, depth_r, hash_r),
    ensures
        zorder_lt(depth_l, hash_l, depth_r, hash_r) <==> zuniq_of(depth_l, hash_l) < zuniq_of(
            depth_r,
            hash_r,
        ),
        zorder_lt(depth_l, hash_l, depth_r, hash_r) ==> cell_hi(depth_l, hash_l) <= cell_lo(
            depth_r,
            hash_r,
        ),
{
    lemma_no_overlap_separated(depth_l, hash_l, depth_r, hash_r);
    lemma_cell_interval(depth_l, hash_l);
    lemma_cell_interval(depth_r, hash_r);
}

/// Appending sub-cell index bits to a cell's hash designates a descendant
/// cell, and a cell overlaps every one of its descendants. A distinct cell at
/// the same depth, in particular any sibling, never overlaps it.
pub proof fn lemma_ancestor_descendant_overlap(depth: u8, hash: u32, depth_d: u8, suffix: u32)
    by (bit_vector)
    requires
        valid_cell(depth, hash),
        depth <= depth_d <= MAX_DEPTH,
        suffix < 1u32 << (((depth_d - depth) * DIM) as u32),
    ensures
        valid_cell(depth_d, (hash << (((depth_d - depth) * DIM) as u32)) | suffix),
        overlapping_cells(
            depth,
            hash,
            depth_d,
            (hash << (((depth_d - depth) * DIM) as u32)) | suffix,
        ),
        forall|other: u32|
            other != hash ==> !#[trigger] overlapping_cells(depth, hash, depth, other),
{
}

/// A cell's zuniq is strictly below the zuniq of every descendant of its next
/// sibling, and below that sibling's whole subtree interval.
pub proof fn lemma_before_next_sibling_subtree(depth: u8, hash: u32, depth_d: u8, hash_d: u32)
    requires
        valid_cell(depth, hash),
        valid_cell(depth, (hash + 1) as u32),
        valid_cell(depth_d, hash_d),
        depth <= depth_d,
        overlapping_cells(depth, (hash + 1) as u32, depth_d, hash_d),
    ensures
        zuniq_of(depth, hash) < cell_lo(depth_d, hash_d),
        zuniq_of(depth, hash) < zuniq_of(depth_d, hash_d),
{
    lemma_cell_interval(depth, hash);
    lemma_cell_interval(depth_d, hash_d);
    lemma_overlap_nested(depth, (hash + 1) as u32, depth_d, hash_d);
    assert(cell_hi(depth, hash) == cell_lo(depth, (hash + 1) as u32));
}

/// Lower bound (inclusive) of the subtree interval of the cell a zuniq codes.
pub open spec fn zuniq_lo(zuniq: u32) -> u32
    recommends
        valid_zuniq(zuniq),
{
    cell_lo(zuniq_depth(zuniq), zuniq_hash(zuniq))
}

/// Upper bound (exclusive) of the subtree interval of the cell a zuniq codes.
pub open spec fn zuniq_hi(zuniq: u32) -> u32
    recommends
        valid_zuniq(zuniq),
{
    cell_hi(zuniq_depth(zuniq), zuniq_hash(zuniq))
}

/// A valid zuniq lies strictly inside its own subtree interval.
pub proof fn lemma_zuniq_interval(zuniq: u32)
    requires
        valid_zuniq(zuniq),
    ensures
        zuniq_lo(zuniq) < zuniq,
        zuniq < zuniq_hi(zuniq),
{
    lemma_decode_encode(zuniq);
    lemma_cell_interval(zuniq_depth(zuniq), zuniq_hash(zuniq));
}

/// The overlap predicate on zuniqs is symmetric.
pub proof fn lemma_overlapping_zuniqs_symmetric(zuniq_l: u32, zuniq_r: u32)
    ensures
        overlapping_zuniqs(zuniq_l, zuniq_r) == overlapping_zuniqs(zuniq_r, zuniq_l),
{
    lemma_overlap_symmetric(
        zuniq_depth(zuniq_l),
        zuniq_hash(zuniq_l),
        zuniq_depth(zuniq_r),
        zuniq_hash(zuniq_r),
    );
}

/// A zuniq overlapped by a shallower (or equally deep) one lies inside the
/// subtree interval of the shallower cell.
pub proof fn lemma_shallower_overlap_contains(za: u32, zq: u32)
    requires
        valid_zuniq(za),
        valid_zuniq(zq),
        zuniq_depth(za) <= zuniq_depth(zq),
        overlapping_zuniqs(za, zq),
    ensures
        zuniq_lo(za) <= zq < zuniq_hi(za),
{
    lemma_decode_encode(za);
    lemma_decode_encode(zq);
    lemma_zuniq_interval(zq);
    lemma_overlap_nested(zuniq_depth(za), zuniq_hash(za), zuniq_depth(zq), zuniq_hash(zq));
}

/// Zuniqs whose subtree intervals share a point code overlapping cells.
pub proof fn lemma_intersecting_zuniqs_overlap(zuniq_l: u32, zuniq_r: u32, x: u32)
    requires
        valid_zuniq(zuniq_l),
        valid_zuniq(zuniq_r),
        zuniq_lo(zuniq_l) <= x < zuniq_hi(zuniq_l),
        zuniq_lo(zuniq_r) <= x < zuniq_hi(zuniq_r),
    ensures
        overlapping_zuniqs(zuniq_l, zuniq_r),
{
    lemma_decode_encode(zuniq_l);
    lemma_decode_encode(zuniq_r);
    lemma_intersecting_cells_overlap(
        zuniq_depth(zuniq_l),
        zuniq_hash(zuniq_l),
        zuniq_depth(zuniq_r),
        zuniq_hash(zuniq_r),
        x,
    );
}

/// A zuniq strictly between two overlapping zuniqs, and itself not
/// overlapping the first one, overlaps the last one: the cells overlapping a
/// given cell cannot be separated in zuniq order by a cell foreign to both.
pub proof fn lemma_sandwich(za: u32, zb: u32, zq: u32)
    requires
        valid_zuniq(za),
        valid_zuniq(zb),
        valid_zuniq(zq),
        !overlapping_zuniqs(za, zb),
        overlapping_zuniqs(za, zq),
        za < zb < zq || zq < zb < za,
    ensures
        overlapping_zuniqs(zb, zq),
{
    let da = zuniq_depth(za);
    let ha = zuniq_hash(za);
    let db = zuniq_depth(zb);
    let hb = zuniq_hash(zb);
    let dq = zuniq_depth(zq);
    let hq = zuniq_hash(zq);
    lemma_decode_encode(za);
    lemma_decode_encode(zb);
    lemma_decode_encode(zq);
    lemma_zuniq_interval(za);
    lemma_zuniq_interval(zb);
    lemma_zuniq_interval(zq);
    if da <= dq {
        lemma_overlap_nested(da, ha, dq, hq);
        lemma_intersecting_cells_overlap(da, ha, db, hb, zb);
        assert(false);
    } else {
        lemma_overlap_symmetric(da, ha, dq, hq);
        lemma_overlap_nested(dq, hq, da, ha);
        lemma_intersecting_cells_overlap(db, hb, dq, hq, zb);
        lemma_overlap_symmetric(db, hb, dq, hq);
    }
}

/// The zuniq of every descendant of a cell lies strictly inside that cell's
/// subtree interval, as does the cell's own zuniq: a subtree is never split
/// by a foreign cell in zuniq order. The codec orders a subtree in-order, so
/// an ancestor's zuniq sits between those of its descendants, not below them.
pub proof fn lemma_descendant_within_ancestor_interval(
    depth: u8,
    hash: u32,
    depth_d: u8,
    hash_d: u32,
)
    requires
        valid_cell(depth, hash),
        valid_cell(depth_d, hash_d),
        depth <= depth_d,
        overlapping_cells(depth, hash, depth_d, hash_d),
    ensures
        cell_lo(depth, hash) < zuniq_of(depth_d, hash_d),
        zuniq_of(depth_d, hash_d) < cell_hi(depth, hash),
{
    lemma_overlap_nested(depth, hash, depth_d, hash_d);
    lemma_cell_interval(depth_d, hash_d);
}

/// Multiplies a value by the number of sub-cells per axis, i.e. by 2.
pub fn mult_by_dim(v: u8) -> (r: u8)
    requires
        v <= 127,
    ensures
        r == 2 * v,
{
    proof {
        assert(v <= 127 ==> v << 1u8 == 2 * v) by (bit_vector);
    }
    v << 1u8
}

/// Divides a value by the number of sub-cells per axis, i.e. by 2.
pub fn div_by_dim(v: u8) -> (r: u8)
    ensures
        r == v / 2,
{
    proof {
        assert(v >> 1u8 == v / 2) by (bit_vector);
    }
    v >> 1u8
}

/// Number of bit positions separating a cell from cells `delta_depth` levels
/// deeper.
pub fn shift(delta_depth: u8) -> (r: u8)
    requires
        delta_depth <= MAX_DEPTH,
    ensures
        r == 2 * delta_depth,
{
    mult_by_dim(delta_depth)
}

/// Number of levels between `depth` and the deepest codable level.
pub fn delta_with_depth_max(depth: u8) -> (r: u8)
    requires
        depth <= MAX_DEPTH,
    ensures
        r == MAX_DEPTH - depth,
{
    MAX_DEPTH - depth
}

/// Number of trailing padding bits in the zuniq of a cell at `depth`.
pub fn shift_from_depth_max(depth: u8) -> (r: u8)
    requires
        depth <= MAX_DEPTH,
    ensures
        r == shift_of_depth(depth),
{
    shift(delta_with_depth_max(depth))
}

/// Codes a valid cell designator as a zuniq.
pub fn to_zuniq(depth: u8, hash: u32) -> (zuniq: u32)
    requires
        valid_cell(depth, hash),
    ensures
        zuniq == zuniq_of(depth, hash),
        zuniq != 0,
        valid_zuniq(zuniq),
        zuniq_depth(zuniq) == depth,
        zuniq_hash(zuniq) == hash,
{
    proof {
        lemma_round_trip(depth, hash);
    }
    let zuniq: u32 = (hash << 1u32) | 1;
    zuniq << (shift_from_depth_max(depth) as u32)
}

/// Decodes a zuniq into the `(depth, hash)` designator it codes.
pub fn from_zuniq(zuniq: u32) -> (r: (u8, u32))
    requires
        decodable(zuniq),
    ensures
        r.0 == zuniq_depth(zuniq),
        r.1 == zuniq_hash(zuniq),
        r.0 <= MAX_DEPTH,
        valid_zuniq(zuniq) ==> valid_cell(r.0, r.1) && zuniq_of(r.0, r.1) == zuniq,
{
    proof {
        if valid_zuniq(zuniq) {
            lemma_decode_encode(zuniq);
        }
    }
    let n_trailing_zero = zuniq.trailing_zeros() as u8;
    let delta_depth = div_by_dim(n_trailing_zero);
    let depth = MAX_DEPTH - delta_depth;
    let hash = zuniq >> ((n_trailing_zero + 1) as u32);
    (depth, hash)
}

/// Decodes only the depth of a zuniq: the fast path of `from_zuniq`.
pub fn depth_from_zuniq(zuniq: u32) -> (depth: u8)
    requires
        decodable(zuniq),
    ensures
        depth == zuniq_depth(zuniq),
        depth <= MAX_DEPTH,
{
    let n_trailing_zero = zuniq.trailing_zeros() as u8;
    let delta_depth = div_by_dim(n_trailing_zero);
    MAX_DEPTH - delta_depth
}

/// Decides whether two cells overlap, i.e. whether one is an ancestor of the
/// other or both are the same cell.
pub fn are_overlapping_cells(depth_l: u8, hash_l: u32, depth_r: u8, hash_r: u32) -> (r: bool)
    requires
        depth_l <= MAX_DEPTH,
        depth_r <= MAX_DEPTH,
    ensures
        r == overlapping_cells(depth_l, hash_l, depth_r, hash_r),
{
    if depth_l == depth_r {
        hash_l == hash_r
    } else if depth_l < depth_r {
        hash_l == hash_r >> (shift(depth_r - depth_l) as u32)
    } else {
        hash_r == hash_l >> (shift(depth_l - depth_r) as u32)
    }
}

/// Decides whether the cells coded by two zuniqs overlap.
pub fn are_overlapping(zuniq_l: u32, zuniq_r: u32) -> (r: bool)
    requires
        decodable(zuniq_l),
        decodable(zuniq_r),
    ensures
        r == overlapping_zuniqs(zuniq_l, zuniq_r),
{
    let (depth_l, hash_l) = from_zuniq(zuniq_l);
    let (depth_r, hash_r) = from_zuniq(zuniq_r);
    are_overlapping_cells(depth_l, hash_l, depth_r, hash_r)
}

} // verus!
