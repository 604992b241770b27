//! Per-variant calibration tables and piecewise-linear interpolation.
//!
//! Each hardware variant comes with a manufacturer-characterised table of
//! (raw count, velocity) pairs, strictly increasing in count.  A raw count is
//! turned into a velocity by linear interpolation between the two bracketing
//! table nodes.  Velocities are held in millimetres per second so that the
//! whole conversion stays in exact integer arithmetic; counts outside the
//! table range clamp to the nearest boundary value, since a healthy sensor
//! cannot produce them.

use vstd::arithmetic::div_mod::lemma_div_is_ordered;
use vstd::arithmetic::div_mod::lemma_div_multiples_vanish;
use vstd::arithmetic::mul::lemma_mul_inequality;
use vstd::arithmetic::mul::lemma_mul_upper_bound;
use vstd::prelude::*;

verus! {

/// The two hardware sub-models of the chip: the 1005 covers the narrow
/// velocity range (up to 7.23 m/s, 9 calibration points), the 1015 the wide
/// one (up to 15 m/s, 13 calibration points).
#[derive(Debug, Clone, Copy, PartialEq, Eq, Structural)]
pub enum ChipType {
    Type1005,
    Type1015,
}

/// The raw-count coordinates of the calibration nodes for a variant.
pub open spec fn spec_counts(subtype: ChipType) -> Seq<u16> {
    match subtype {
        ChipType::Type1005 => seq![409u16, 915, 1522, 2066, 2523, 2908, 3256, 3572, 3686],
        ChipType::Type1015 => seq![
            409u16,
            1203,
            1597,
            1908,
            2187,
            2400,
            2629,
            2801,
            3006,
            3178,
            3309,
            3563,
            3686,
        ],
    }
}

/// The velocity coordinates of the calibration nodes for a variant, in
/// millimetres per second.
pub open spec fn spec_velocities_mmps(subtype: ChipType) -> Seq<u16> {
    match subtype {
        ChipType::Type1005 => seq![0u16, 1070, 2010, 3000, 3970, 4960, 5980, 6990, 7230],
        ChipType::Type1015 => seq![
            0u16,
            2000,
            3000,
            4000,
            5000,
            6000,
            7000,
            8000,
            9000,
            10000,
            11000,
            13000,
            15000,
        ],
    }
}

/// Each entry is strictly smaller than its successor.
pub open spec fn strictly_increasing(s: Seq<u16>) -> bool {
    forall|i: int| 0 <= i < s.len() - 1 ==> #[trigger] s[i] < s[i + 1]
}

/// Each entry is at most its successor.
pub open spec fn nondecreasing(s: Seq<u16>) -> bool {
    forall|i: int| 0 <= i < s.len() - 1 ==> #[trigger] s[i] <= s[i + 1]
}

/// A well-formed calibration table: parallel sequences of equal length with
/// at least two nodes, strictly increasing in count and non-decreasing in
/// velocity.
pub open spec fn table_wf(counts: Seq<u16>, vels: Seq<u16>) -> bool {
    &&& counts.len() == vels.len()
    &&& 2 <= counts.len()
    &&& strictly_increasing(counts)
    &&& nondecreasing(vels)
}

/// The value of the line through (c0, v0) and (c1, v1) at x, with the
/// quotient taken in integer arithmetic.
pub open spec fn seg_value(c0: int, c1: int, v0: int, v1: int, x: int) -> int
    recommends
        c0 < c1,
{
    v0 + (x - c0) * (v1 - v0) / (c1 - c0)
}

/// The interpolated value of a table at x, taken on the first segment whose
/// upper node is at or above x.
pub open spec fn spec_interp_table(counts: Seq<u16>, vels: Seq<u16>, x: int) -> int
    recommends
        table_wf(counts, vels),
    decreases counts.len(),
{
    if counts.len() < 2 {
        0
    } else if x <= counts[1] || counts.len() == 2 {
        seg_value(counts[0] as int, counts[1] as int, vels[0] as int, vels[1] as int, x)
    } else {
        spec_interp_table(counts.skip(1), vels.skip(1), x)
    }
}

/// The velocity assigned to a raw count, in millimetres per second: the
/// boundary velocity when the count lies at or outside the table's ends, the
/// interpolated value in between.
pub open spec fn spec_interpolate_mmps(subtype: ChipType, count: u16) -> int {
    let counts = spec_counts(subtype);
    let vels = spec_velocities_mmps(subtype);
    if count <= counts.first() {
        vels.first() as int
    } else if count >= counts.last() {
        vels.last() as int
    } else {
        spec_interp_table(counts, vels, count as int)
    }
}

/// Both calibration tables are well formed and lie within the sensor's raw
/// and velocity ranges.
pub proof fn lemma_table_wf(subtype: ChipType)
    ensures
        table_wf(spec_counts(subtype), spec_velocities_mmps(subtype)),
        spec_counts(subtype).last() <= 3686,
        spec_velocities_mmps(subtype).last() <= 15000,
{
    let c = spec_counts(subtype);
    let v = spec_velocities_mmps(subtype);
    match subtype {
        ChipType::Type1005 => {
            assert(strictly_increasing(c));
            assert(nondecreasing(v));
        },
        ChipType::Type1015 => {
            assert(strictly_increasing(c));
            assert(nondecreasing(v));
        },
    }
}

proof fn lemma_strictly_increasing_pairwise(s: Seq<u16>, i: int, j: int)
    requires
        strictly_increasing(s),
        0 <= i <= j < s.len(),
    ensures
        s[i] <= s[j],
        i < j ==> s[i] < s[j],
    decreases j - i,
{
    if i < j {
        lemma_strictly_increasing_pairwise(s, i, j - 1);
        assert(s[j - 1] < s[j]);
    }
}

proof fn lemma_nondecreasing_pairwise(s: Seq<u16>, i: int, j: int)
    requires
        nondecreasing(s),
        0 <= i <= j < s.len(),
    ensures
        s[i] <= s[j],
    decreases j - i,
{
    if i < j {
        lemma_nondecreasing_pairwise(s, i, j - 1);
        assert(s[j - 1] <= s[j]);
    }
}

proof fn lemma_seg_value_at_lo(c0: int, c1: int, v0: int, v1: int)
    requires
        c0 < c1,
    ensures
        seg_value(c0, c1, v0, v1, c0) == v0,
{
    assert((c0 - c0) * (v1 - v0) == 0);
    lemma_div_multiples_vanish(0, c1 - c0);
    assert((c1 - c0) * 0 == 0);
}

proof fn lemma_seg_value_at_hi(c0: int, c1: int, v0: int, v1: int)
    requires
        c0 < c1,
    ensures
        seg_value(c0, c1, v0, v1, c1) == v1,
{
    lemma_div_multiples_vanish(v1 - v0, c1 - c0);
}

proof fn lemma_seg_value_mono(c0: int, c1: int, v0: int, v1: int, x: int, y: int)
    requires
        c0 < c1,
        v0 <= v1,
        x <= y,
    ensures
        seg_value(c0, c1, v0, v1, x) <= seg_value(c0, c1, v0, v1, y),
{
    lemma_mul_inequality(x - c0, y - c0, v1 - v0);
    lemma_div_is_ordered((x - c0) * (v1 - v0), (y - c0) * (v1 - v0), c1 - c0);
}

proof fn lemma_seg_value_bounds(c0: int, c1: int, v0: int, v1: int, x: int)
    requires
        c0 < c1,
        v0 <= v1,
        c0 <= x <= c1,
    ensures
        v0 <= seg_value(c0, c1, v0, v1, x) <= v1,
{
    lemma_seg_value_at_lo(c0, c1, v0, v1);
    lemma_seg_value_at_hi(c0, c1, v0, v1);
    lemma_seg_value_mono(c0, c1, v0, v1, c0, x);
    lemma_seg_value_mono(c0, c1, v0, v1, x, c1);
}

proof fn lemma_table_wf_skip(counts: Seq<u16>, vels: Seq<u16>)
    requires
        table_wf(counts, vels),
        3 <= counts.len(),
    ensures
        table_wf(counts.skip(1), vels.skip(1)),
{
    let cs = counts.skip(1);
    let vs = vels.skip(1);
    assert forall|i: int| 0 <= i < cs.len() - 1 implies #[trigger] cs[i] < cs[i + 1] by {
        assert(cs[i] == counts[i + 1]);
        assert(cs[i + 1] == counts[i + 2]);
        assert(counts[i + 1] < counts[i + 2]);
    }
    assert forall|i: int| 0 <= i < vs.len() - 1 implies #[trigger] vs[i] <= vs[i + 1] by {
        assert(vs[i] == vels[i + 1]);
        assert(vs[i + 1] == vels[i + 2]);
        assert(vels[i + 1] <= vels[i + 2]);
    }
}

/// Interpolation hits the table node exactly: at the count of node k, the
/// table's interpolated value is the velocity of node k.
proof fn lemma_interp_table_node(counts: Seq<u16>, vels: Seq<u16>, k: int)
    requires
        table_wf(counts, vels),
        1 <= k < counts.len(),
    ensures
        spec_interp_table(counts, vels, counts[k] as int) == vels[k],
    decreases k,
{
    let x = counts[k] as int;
    if k == 1 {
        lemma_seg_value_at_hi(counts[0] as int, counts[1] as int, vels[0] as int, vels[1] as int);
    } else {
        lemma_strictly_increasing_pairwise(counts, 1, k);
        assert(counts[1] < counts[k]);
        lemma_table_wf_skip(counts, vels);
        let cs = counts.skip(1);
        let vs = vels.skip(1);
        assert(cs[k - 1] == counts[k]);
        lemma_interp_table_node(cs, vs, k - 1);
        assert(vs[k - 1] == vels[k]);
    }
}

/// Over its domain the interpolated value stays between the table's first
/// and last velocities.
proof fn lemma_interp_table_bounds(counts: Seq<u16>, vels: Seq<u16>, x: int)
    requires
        table_wf(counts, vels),
        counts[0] <= x <= counts.last(),
    ensures
        vels[0] <= spec_interp_table(counts, vels, x) <= vels.last(),
    decreases counts.len(),
{
    let c0 = counts[0] as int;
    let c1 = counts[1] as int;
    let v0 = vels[0] as int;
    let v1 = vels[1] as int;
    assert(counts[0] < counts[1]);
    assert(vels[0] <= vels[1]);
    if x <= counts[1] || counts.len() == 2 {
        if counts.len() == 2 {
            lemma_seg_value_bounds(c0, c1, v0, v1, x);
        } else {
            lemma_seg_value_bounds(c0, c1, v0, v1, x);
            lemma_nondecreasing_pairwise(vels, 1, vels.len() - 1);
        }
    } else {
        lemma_table_wf_skip(counts, vels);
        let cs = counts.skip(1);
        let vs = vels.skip(1);
        assert(cs[0] == counts[1]);
        assert(cs.last() == counts.last());
        lemma_interp_table_bounds(cs, vs, x);
        assert(vs[0] == vels[1]);
        assert(vs.last() == vels.last());
    }
}

/// The interpolated table value is non-decreasing in the count over the
/// table's domain.
proof fn lemma_interp_table_mono(counts: Seq<u16>, vels: Seq<u16>, x: int, y: int)
    requires
        table_wf(counts, vels),
        counts[0] <= x <= y <= counts.last(),
    ensures
        spec_interp_table(counts, vels, x) <= spec_interp_table(counts, vels, y),
    decreases counts.len(),
{
    let c0 = counts[0] as int;
    let c1 = counts[1] as int;
    let v0 = vels[0] as int;
    let v1 = vels[1] as int;
    assert(counts[0] < counts[1]);
    assert(vels[0] <= vels[1]);
    if y <= counts[1] || counts.len() == 2 {
        lemma_seg_value_mono(c0, c1, v0, v1, x, y);
    } else if x <= counts[1] {
        lemma_seg_value_mono(c0, c1, v0, v1, x, c1);
        lemma_seg_value_at_hi(c0, c1, v0, v1);
        lemma_table_wf_skip(counts, vels);
        let cs = counts.skip(1);
        let vs = vels.skip(1);
        assert(cs[0] == counts[1]);
        assert(cs.last() == counts.last());
        lemma_interp_table_bounds(cs, vs, y);
        assert(vs[0] == vels[1]);
    } else {
        lemma_table_wf_skip(counts, vels);
        let cs = counts.skip(1);
        let vs = vels.skip(1);
        assert(cs[0] == counts[1]);
        assert(cs.last() == counts.last());
        lemma_interp_table_mono(cs, vs, x, y);
    }
}

/// Interpolation is exact at every calibration node: feeding a node's count
/// back in returns that node's velocity, for every index of both tables.
pub proof fn lemma_interpolate_exact_at_nodes(subtype: ChipType, i: int)
    requires
        0 <= i < spec_counts(subtype).len(),
    ensures
        spec_interpolate_mmps(subtype, spec_counts(subtype)[i]) == spec_velocities_mmps(
            subtype,
        )[i],
{
    lemma_table_wf(subtype);
    let c = spec_counts(subtype);
    let v = spec_velocities_mmps(subtype);
    if i == 0 {
        assert(c[i] == c.first());
    } else if i == c.len() - 1 {
        lemma_strictly_increasing_pairwise(c, 0, i);
        assert(c[i] == c.last());
    } else {
        lemma_strictly_increasing_pairwise(c, 0, i);
        lemma_strictly_increasing_pairwise(c, i, c.len() - 1);
        lemma_interp_table_node(c, v, i);
    }
}

/// Interpolation is monotonic: a larger raw count never yields a smaller
/// velocity, over the whole 16-bit count range of either variant.
pub proof fn lemma_interpolate_monotonic(subtype: ChipType, a: u16, b: u16)
    requires
        a <= b,
    ensures
        spec_interpolate_mmps(subtype, a) <= spec_interpolate_mmps(subtype, b),
{
    lemma_table_wf(subtype);
    let c = spec_counts(subtype);
    let v = spec_velocities_mmps(subtype);
    lemma_strictly_increasing_pairwise(c, 0, c.len() - 1);
    lemma_nondecreasing_pairwise(v, 0, v.len() - 1);
    if a <= c.first() {
        if b <= c.first() || b >= c.last() {
        } else {
            lemma_interp_table_bounds(c, v, b as int);
        }
    } else if a >= c.last() {
    } else {
        if b >= c.last() {
            lemma_interp_table_bounds(c, v, a as int);
        } else {
            lemma_interp_table_mono(c, v, a as int, b as int);
        }
    }
}

/// Whatever the raw count, the assigned velocity stays between the table's
/// first and last velocities — the variant's rated range.
pub proof fn lemma_interpolate_in_range(subtype: ChipType, count: u16)
    ensures
        spec_velocities_mmps(subtype).first() <= spec_interpolate_mmps(subtype, count)
            <= spec_velocities_mmps(subtype).last(),
{
    lemma_table_wf(subtype);
    lemma_interpolate_monotonic(subtype, 0, count);
    lemma_interpolate_monotonic(subtype, count, u16::MAX);
    assert(spec_interpolate_mmps(subtype, 0) == spec_velocities_mmps(subtype).first());
    assert(u16::MAX >= spec_counts(subtype).last());
    assert(spec_interpolate_mmps(subtype, u16::MAX) == spec_velocities_mmps(subtype).last());
}

/// The raw-count coordinates of the calibration nodes for a variant, for
/// runtime use.
pub fn counts_table(subtype: &ChipType) -> (t: Vec<u16>)
    ensures
        t@ == spec_counts(*subtype),
{
    let mut t: Vec<u16> = Vec::new();
    match subtype {
        ChipType::Type1005 => {
            t.push(409);
            t.push(915);
            t.push(1522);
            t.push(2066);
            t.push(2523);
            t.push(2908);
            t.push(3256);
            t.push(3572);
            t.push(3686);
        },
        ChipType::Type1015 => {
            t.push(409);
            t.push(1203);
            t.push(1597);
            t.push(1908);
            t.push(2187);
            t.push(2400);
            t.push(2629);
            t.push(2801);
            t.push(3006);
            t.push(3178);
            t.push(3309);
            t.push(3563);
            t.push(3686);
        },
    }
    proof {
        assert(t@ =~= spec_counts(*subtype));
    }
    t
}

/// The velocity coordinates of the calibration nodes for a variant in
/// millimetres per second, for runtime use.
pub fn velocities_table(subtype: &ChipType) -> (t: Vec<u16>)
    ensures
        t@ == spec_velocities_mmps(*subtype),
{
    let mut t: Vec<u16> = Vec::new();
    match subtype {
        ChipType::Type1005 => {
            t.push(0);
            t.push(1070);
            t.push(2010);
            t.push(3000);
            t.push(3970);
            t.push(4960);
            t.push(5980);
            t.push(6990);
            t.push(7230);
        },
        ChipType::Type1015 => {
            t.push(0);
            t.push(2000);
            t.push(3000);
            t.push(4000);
            t.push(5000);
            t.push(6000);
            t.push(7000);
            t.push(8000);
            t.push(9000);
            t.push(10000);
            t.push(11000);
            t.push(13000);
            t.push(15000);
        },
    }
    proof {
        assert(t@ =~= spec_velocities_mmps(*subtype));
    }
    t
}

/// Maps a raw count to a velocity in millimetres per second for the given
/// variant, by linear interpolation over that variant's calibration table,
/// clamping to the boundary velocities outside the table range.
pub fn interpolate(subtype: &ChipType, count: u16) -> (velocity_mmps: u16)
    ensures
        velocity_mmps == spec_interpolate_mmps(*subtype, count),
{
    let counts = counts_table(subtype);
    let vels = velocities_table(subtype);
    proof {
        lemma_table_wf(*subtype);
    }
    let n = counts.len();
    if count <= counts[0] {
        return vels[0];
    }
    if count >= counts[n - 1] {
        return vels[n - 1];
    }
    proof {
        assert(counts@.skip(0) =~= counts@);
        assert(vels@.skip(0) =~= vels@);
    }
    let mut i: usize = 0;
    while count > counts[i + 1]
        invariant
            counts@ == spec_counts(*subtype),
            vels@ == spec_velocities_mmps(*subtype),
            table_wf(counts@, vels@),
            n == counts@.len(),
            vels@.len() == n,
            0 <= i < n - 1,
            counts@[i as int] < count,
            count < counts@[n - 1],
            spec_interp_table(counts@.skip(i as int), vels@.skip(i as int), count as int)
                == spec_interp_table(counts@, vels@, count as int),
        decreases n - i,
    {
        proof {
            assert(i + 1 < n - 1) by {
                if i + 1 == n - 1 {
                    assert(counts@[i + 1] == counts@[n - 1]);
                }
            }
            let cs = counts@.skip(i as int);
            let vs = vels@.skip(i as int);
            assert(cs.len() == n - i >= 3);
            assert(cs[1] == counts@[i + 1]);
            assert(cs.skip(1) =~= counts@.skip(i + 1));
            assert(vs.skip(1) =~= vels@.skip(i + 1));
        }
        i = i + 1;
    }
    let c0 = counts[i];
    let c1 = counts[i + 1];
    let v0 = vels[i];
    let v1 = vels[i + 1];
    proof {
        assert(counts@[i as int] < counts@[i as int + 1]);
        assert(vels@[i as int] <= vels@[i as int + 1]);
        lemma_strictly_increasing_pairwise(counts@, i as int + 1, n - 1);
        lemma_nondecreasing_pairwise(vels@, i as int + 1, n - 1);
        assert(c1 <= 3686);
        assert(v1 <= 15000);
        let cs = counts@.skip(i as int);
        let vs = vels@.skip(i as int);
        assert(cs[1] == counts@[i as int + 1]);
        assert(cs[0] == counts@[i as int]);
        assert(vs[0] == vels@[i as int]);
        assert(vs[1] == vels@[i as int + 1]);
        assert(spec_interp_table(cs, vs, count as int) == seg_value(
            c0 as int,
            c1 as int,
            v0 as int,
            v1 as int,
            count as int,
        ));
        lemma_seg_value_bounds(c0 as int, c1 as int, v0 as int, v1 as int, count as int);
    }
    let dx: u32 = (count - c0) as u32;
    let dv: u32 = (v1 - v0) as u32;
    let dc: u32 = (c1 - c0) as u32;
    proof {
        lemma_mul_upper_bound(dx as int, 3686, dv as int, 15000);
    }
    let num: u32 = dx * dv;
    let q: u32 = num / dc;
    let result: u32 = v0 as u32 + q;
    proof {
        assert(q == (count - c0) * (v1 - v0) / (c1 - c0));
        assert(result == seg_value(c0 as int, c1 as int, v0 as int, v1 as int, count as int));
        assert(result <= v1);
    }
    result as u16
}

} // verus!
