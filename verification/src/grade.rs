//! The four-way grade projection: current / minimum / maximum / upside.
//!
//! All figures are exact fractions of 100. With grades and weights held in
//! hundredths, the weighted sum `scaled_points` carries a factor of 100 x 100,
//! so the projection formulas appear here with their denominators scaled by
//! 10^4: `minimum = scaled_points / 10^6`, `current = scaled_points /
//! (100 * graded_weight_sum)`, and so on.

use vstd::prelude::*;
use crate::assignment::Assignment;
use crate::errors::EngineError;
use crate::fraction::{frac_is_int, frac_le, Fraction};

verus! {

/// Every record is well-formed.
pub open spec fn records_wf(s: Seq<Assignment>) -> bool {
    forall|i: int| 0 <= i < s.len() ==> (#[trigger] s[i]).wf()
}

/// The weights of the graded records, summed (hundredths of a percent).
pub open spec fn graded_weight_sum(s: Seq<Assignment>) -> int
    decreases s.len(),
{
    if s.len() == 0 {
        0
    } else {
        graded_weight_sum(s.drop_last()) + if s.last().spec_graded() {
            s.last().weight as int
        } else {
            0
        }
    }
}

/// The weights of the ungraded records, summed (hundredths of a percent).
pub open spec fn ungraded_weight_sum(s: Seq<Assignment>) -> int
    decreases s.len(),
{
    if s.len() == 0 {
        0
    } else {
        ungraded_weight_sum(s.drop_last()) + if s.last().spec_graded() {
            0
        } else {
            s.last().weight as int
        }
    }
}

/// The weighted sum of percentage scores over the graded records, scaled by
/// 100 x 100 (grade and weight are both in hundredths).
pub open spec fn scaled_points(s: Seq<Assignment>) -> int
    decreases s.len(),
{
    if s.len() == 0 {
        0
    } else {
        scaled_points(s.drop_last()) + match s.last().grade {
            Some(g) => g * s.last().weight,
            None => 0,
        }
    }
}

/// The grade if every ungraded item scores zero: `scaled_points / 10^6`.
pub open spec fn minimum_frac(s: Seq<Assignment>) -> Fraction {
    Fraction { num: scaled_points(s) as i128, den: 1_000_000 }
}

/// The grade implied by graded work alone:
/// `scaled_points / (100 * graded_weight_sum)`. Meaningful only with positive
/// graded weight.
pub open spec fn current_frac(s: Seq<Assignment>) -> Fraction {
    Fraction {
        num: scaled_points(s) as i128,
        den: (100 * graded_weight_sum(s)) as i128,
    }
}

/// The grade if every ungraded item scores perfectly, assuming all weights of
/// the course sum to 100:
/// `(scaled_points + 10^4 * (10^4 - graded_weight_sum)) / 10^6`.
pub open spec fn maximum_frac(s: Seq<Assignment>) -> Fraction {
    Fraction {
        num: (scaled_points(s) + 10_000 * (10_000 - graded_weight_sum(s))) as i128,
        den: 1_000_000,
    }
}

/// The marginal improvement if all remaining ungraded weight scores perfectly,
/// relative to `current`: the difference
/// `(scaled_points + 10^4 * ungraded_weight_sum) / (100 * (graded_weight_sum +
/// ungraded_weight_sum)) - current`, cross-multiplied onto one denominator.
/// Meaningful only with positive graded weight.
pub open spec fn upside_frac(s: Seq<Assignment>) -> Fraction {
    let sp = scaled_points(s);
    let gw = graded_weight_sum(s);
    let uw = ungraded_weight_sum(s);
    Fraction {
        num: ((sp + 10_000 * uw) * (100 * gw) - sp * (100 * (gw + uw))) as i128,
        den: (10_000 * gw * (gw + uw)) as i128,
    }
}

/// The four projected figures. `current` and `upside` are undefined when
/// nothing carries a graded weight.
#[derive(Clone, Copy, Debug, PartialEq)]
pub struct GradeProjection {
    pub current: Result<Fraction, EngineError>,
    pub minimum: Fraction,
    pub maximum: Fraction,
    pub upside: Result<Fraction, EngineError>,
}

/// The sums stay inside the bounds the record invariant gives.
pub proof fn lemma_sums_bounds(s: Seq<Assignment>)
    requires
        records_wf(s),
    ensures
        0 <= graded_weight_sum(s) <= s.len() * 10_000,
        0 <= ungraded_weight_sum(s) <= s.len() * 10_000,
        0 <= scaled_points(s) <= s.len() * 10_000_000_000,
    decreases s.len(),
{
    if s.len() > 0 {
        let prefix = s.drop_last();
        assert(records_wf(prefix)) by {
            assert(forall|i: int| 0 <= i < prefix.len() ==> prefix[i] == s[i]);
        }
        lemma_sums_bounds(prefix);
        let a = s.last();
        assert(a.wf());
        match a.grade {
            Some(g) => {
                assert(g * a.weight <= 10_000_000_000) by (nonlinear_arith)
                    requires
                        g <= 1_000_000,
                        a.weight <= 10_000,
                ;
                assert(g * a.weight >= 0) by (nonlinear_arith);
            },
            None => {},
        }
    }
}

/// When every graded score is at most `cap`, the weighted points are at most
/// `cap` times the graded weight.
pub proof fn lemma_points_le_grade_cap(s: Seq<Assignment>, cap: int)
    requires
        records_wf(s),
        cap >= 0,
        forall|i: int| 0 <= i < s.len() ==> ((#[trigger] s[i]).grade matches Some(g) ==> g <= cap),
    ensures
        scaled_points(s) <= cap * graded_weight_sum(s),
    decreases s.len(),
{
    if s.len() > 0 {
        let prefix = s.drop_last();
        assert(forall|i: int| 0 <= i < prefix.len() ==> prefix[i] == s[i]);
        lemma_points_le_grade_cap(prefix, cap);
        let a = s.last();
        assert(a.wf());
        match a.grade {
            Some(g) => {
                assert(g <= cap);
                assert(scaled_points(prefix) + g * a.weight <= cap * (graded_weight_sum(prefix)
                    + a.weight)) by (nonlinear_arith)
                    requires
                        scaled_points(prefix) <= cap * graded_weight_sum(prefix),
                        0 <= g <= cap,
                        0 <= a.weight,
                ;
            },
            None => {},
        }
    }
}

/// With no graded record there are no points and no graded weight, so the
/// minimum grade is exactly zero while `current` and `upside` are undefined
/// (see the contract of `calculate_grade`).
pub proof fn lemma_nothing_graded(s: Seq<Assignment>)
    requires
        forall|i: int| 0 <= i < s.len() ==> !(#[trigger] s[i]).spec_graded(),
    ensures
        graded_weight_sum(s) == 0,
        scaled_points(s) == 0,
        frac_is_int(minimum_frac(s), 0),
    decreases s.len(),
{
    if s.len() > 0 {
        let prefix = s.drop_last();
        assert(forall|i: int| 0 <= i < prefix.len() ==> prefix[i] == s[i]);
        lemma_nothing_graded(prefix);
    }
}

/// With every record graded there is no ungraded weight.
pub proof fn lemma_all_graded(s: Seq<Assignment>)
    requires
        forall|i: int| 0 <= i < s.len() ==> (#[trigger] s[i]).spec_graded(),
    ensures
        ungraded_weight_sum(s) == 0,
    decreases s.len(),
{
    if s.len() > 0 {
        let prefix = s.drop_last();
        assert(forall|i: int| 0 <= i < prefix.len() ==> prefix[i] == s[i]);
        lemma_all_graded(prefix);
    }
}

/// Monotonic bounding: for a non-empty graded set with positive weight sum,
/// `minimum <= current <= maximum`. This needs what the source data
/// guarantees by construction: graded weights sum to at most 100 and every
/// graded score is at most 100 (a score above 100 can push `current` past
/// `maximum`).
pub proof fn lemma_minimum_le_current_le_maximum(s: Seq<Assignment>)
    requires
        records_wf(s),
        0 < graded_weight_sum(s) <= 10_000,
        forall|i: int| 0 <= i < s.len() ==> ((#[trigger] s[i]).grade matches Some(g) ==> g
            <= 10_000),
    ensures
        frac_le(minimum_frac(s), current_frac(s)),
        frac_le(current_frac(s), maximum_frac(s)),
{
    lemma_sums_bounds(s);
    lemma_points_le_grade_cap(s, 10_000);
    let sp = scaled_points(s);
    let gw = graded_weight_sum(s);
    // the weighted points are capped by the graded weight alone
    assert(0 <= sp <= 100_000_000);
    assert(minimum_frac(s).num == sp && minimum_frac(s).den == 1_000_000);
    assert(current_frac(s).num == sp && current_frac(s).den == 100 * gw);
    assert(maximum_frac(s).num == sp + 10_000 * (10_000 - gw) && maximum_frac(s).den
        == 1_000_000);
    assert(sp * (100 * gw) <= sp * 1_000_000) by (nonlinear_arith)
        requires
            0 <= sp,
            0 < gw <= 10_000,
    ;
    assert(100 * sp <= 1_000_000 * gw) by {
        assert(sp <= 10_000 * gw);
    }
    assert((sp + 10_000 * (10_000 - gw)) * (100 * gw) - sp * 1_000_000 == (10_000 - gw) * (
    1_000_000 * gw - 100 * sp)) by (nonlinear_arith);
    assert((10_000 - gw) * (1_000_000 * gw - 100 * sp) >= 0) by (nonlinear_arith)
        requires
            gw <= 10_000,
            100 * sp <= 1_000_000 * gw,
    ;
}

/// With nothing ungraded and some graded weight, the upside is exactly zero.
pub proof fn lemma_no_ungraded_upside_zero(s: Seq<Assignment>)
    requires
        records_wf(s),
        forall|i: int| 0 <= i < s.len() ==> (#[trigger] s[i]).spec_graded(),
        graded_weight_sum(s) > 0,
    ensures
        frac_is_int(upside_frac(s), 0),
{
    lemma_all_graded(s);
    let sp = scaled_points(s);
    let gw = graded_weight_sum(s);
    assert((sp + 10_000 * 0) * (100 * gw) - sp * (100 * (gw + 0)) == 0) by (nonlinear_arith);
}

/// With nothing ungraded and the full course weight graded (weights sum to
/// 100 by construction of the source data), the minimum and maximum grades
/// coincide.
pub proof fn lemma_no_ungraded_min_eq_max(s: Seq<Assignment>)
    requires
        records_wf(s),
        forall|i: int| 0 <= i < s.len() ==> (#[trigger] s[i]).spec_graded(),
        graded_weight_sum(s) == 10_000,
    ensures
        minimum_frac(s) == maximum_frac(s),
{
    lemma_all_graded(s);
}

/// Project the four grade figures over a scrape.
///
/// `current` and `upside` come back as `UndefinedProjection` exactly when the
/// graded weight sum is zero; `minimum` and `maximum` are always computable.
pub fn calculate_grade(records: &Vec<Assignment>) -> (r: GradeProjection)
    requires
        records_wf(records@),
        records@.len() <= 1_000_000,
    ensures
        r.minimum == minimum_frac(records@),
        r.maximum == maximum_frac(records@),
        graded_weight_sum(records@) == 0 ==> r.current == Err::<Fraction, EngineError>(
            EngineError::UndefinedProjection,
        ) && r.upside == Err::<Fraction, EngineError>(EngineError::UndefinedProjection),
        graded_weight_sum(records@) > 0 ==> r.current == Ok::<Fraction, EngineError>(
            current_frac(records@),
        ) && r.upside == Ok::<Fraction, EngineError>(upside_frac(records@)),
        r.minimum.wf(),
        r.maximum.wf(),
        (r.current matches Ok(c) ==> c.wf()),
        (r.upside matches Ok(u) ==> u.wf()),
{
    let ghost s = records@;
    let n = records.len();
    let mut gw: u64 = 0;
    let mut uw: u64 = 0;
    let mut sp: u64 = 0;
    let mut i: usize = 0;
    while i < n
        invariant
            i <= n,
            n == s.len(),
            s == records@,
            records_wf(s),
            n <= 1_000_000,
            gw == graded_weight_sum(s.take(i as int)),
            uw == ungraded_weight_sum(s.take(i as int)),
            sp == scaled_points(s.take(i as int)),
            gw <= i * 10_000,
            uw <= i * 10_000,
            sp <= i * 10_000_000_000,
        decreases n - i,
    {
        let a = &records[i];
        proof {
            assert(s.take(i + 1).drop_last() =~= s.take(i as int));
            assert(s.take(i + 1).last() == s[i as int]);
            assert(s[i as int].wf());
        }
        match a.grade {
            Some(g) => {
                proof {
                    assert(g * a.weight <= 10_000_000_000 && g * a.weight >= 0)
                        by (nonlinear_arith)
                        requires
                            0 <= g <= 1_000_000,
                            0 <= a.weight <= 10_000,
                    ;
                }
                gw = gw + a.weight;
                sp = sp + g * a.weight;
            },
            None => {
                uw = uw + a.weight;
            },
        }
        i = i + 1;
    }
    proof {
        assert(s.take(n as int) =~= s);
    }
    let sp_i = sp as i128;
    let gw_i = gw as i128;
    let uw_i = uw as i128;
    let minimum = Fraction::new(sp_i, 1_000_000);
    let maximum = Fraction::new(sp_i + 10_000 * (10_000 - gw_i), 1_000_000);
    if gw == 0 {
        GradeProjection {
            current: Err(EngineError::UndefinedProjection),
            minimum,
            maximum,
            upside: Err(EngineError::UndefinedProjection),
        }
    } else {
        let current = Fraction::new(sp_i, 100 * gw_i);
        proof {
            assert((sp_i + 10_000 * uw_i) * (100 * gw_i) <= 20_000_000_000_000_000 * 1_000_000_000_000
                && (sp_i + 10_000 * uw_i) * (100 * gw_i) >= 0) by (nonlinear_arith)
                requires
                    0 <= sp_i <= 10_000_000_000_000_000,
                    0 <= uw_i <= 10_000_000_000,
                    0 <= gw_i <= 10_000_000_000,
            ;
            assert(sp_i * (100 * (gw_i + uw_i)) <= 10_000_000_000_000_000 * 2_000_000_000_000
                && sp_i * (100 * (gw_i + uw_i)) >= 0) by (nonlinear_arith)
                requires
                    0 <= sp_i <= 10_000_000_000_000_000,
                    0 <= uw_i <= 10_000_000_000,
                    0 <= gw_i <= 10_000_000_000,
            ;
            assert(10_000 * gw_i * (gw_i + uw_i) <= 10_000 * 10_000_000_000 * 20_000_000_000
                && 10_000 * gw_i * (gw_i + uw_i) > 0) by (nonlinear_arith)
                requires
                    0 < gw_i <= 10_000_000_000,
                    0 <= uw_i <= 10_000_000_000,
            ;
        }
        let up_num = (sp_i + 10_000 * uw_i) * (100 * gw_i) - sp_i * (100 * (gw_i + uw_i));
        let up_den = 10_000 * gw_i * (gw_i + uw_i);
        let upside = Fraction::new(up_num, up_den);
        GradeProjection { current: Ok(current), minimum, maximum, upside: Ok(upside) }
    }
}

} // verus!
