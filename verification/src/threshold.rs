//! Threshold evaluation: does the current value of a metric deviate from its
//! baseline by more than the monitor allows?

use vstd::prelude::*;

verus! {

/// Fixed-point units in one whole.
pub const SCALE: i64 = 1_000_000;

/// How the deviation from the baseline is measured.
#[derive(Clone, Copy, Debug, PartialEq, Eq, Structural, Hash)]
pub enum MonitorThresholdMode {
    /// The raw difference `current - baseline`.
    Absolute,
    /// The difference relative to the baseline, `(current - baseline) / baseline`.
    Percentage,
}

/// The side on which a variance left the allowed band.
#[derive(Clone, Copy, Debug, PartialEq, Eq, Structural, Hash)]
pub enum BreachDirection {
    Low,
    High,
}

/// The result of holding one value against one threshold.
#[derive(Clone, Copy, Debug, PartialEq, Eq, Structural, Hash)]
pub enum Evaluation {
    /// The variance lies within the configured bounds.
    NoBreach,
    /// The variance lies outside them; `variance` is in fixed-point units,
    /// rounded toward zero.
    Breach { direction: BreachDirection, variance: i128 },
    /// Percentage mode with a baseline of zero: the variance is undefined.
    Indeterminate,
}

/// The metric that a monitor watches.
#[derive(Clone, Copy, Debug, PartialEq, Eq, Structural, Hash)]
pub enum AlertMetric {
    Accuracy,
    AucRoc,
    Precision,
    Recall,
    F1,
    MeanSquaredError,
    RootMeanSquaredError,
}

/// The task that a model was trained for.
#[derive(Clone, Copy, Debug, PartialEq, Eq, Structural, Hash)]
pub enum AlertModelType {
    Regressor,
    BinaryClassifier,
    MulticlassClassifier,
}

/// The band within which a metric may move before the monitor fires. The
/// bounds are variances in fixed-point units; an absent bound never fires.
#[derive(Clone, Copy, Debug, PartialEq, Eq, Structural, Hash)]
pub struct MonitorThreshold {
    pub metric: AlertMetric,
    pub mode: MonitorThresholdMode,
    pub variance_lower: Option<i64>,
    pub variance_upper: Option<i64>,
}

/// The quotient of `n` by `d`, rounded toward zero.
pub open spec fn div_toward_zero(n: int, d: int) -> int
    recommends
        d != 0,
{
    if n >= 0 {
        if d > 0 {
            n / d
        } else {
            -(n / (-d))
        }
    } else {
        if d > 0 {
            -((-n) / d)
        } else {
            (-n) / (-d)
        }
    }
}

/// Whether the variance is defined for this mode and baseline.
pub open spec fn variance_defined(mode: MonitorThresholdMode, baseline: int) -> bool {
    mode == MonitorThresholdMode::Absolute || baseline != 0
}

/// The variance in fixed-point units, rounded toward zero.
pub open spec fn variance_of(mode: MonitorThresholdMode, current: int, baseline: int) -> int
    recommends
        variance_defined(mode, baseline),
{
    match mode {
        MonitorThresholdMode::Absolute => current - baseline,
        MonitorThresholdMode::Percentage => div_toward_zero(
            (current - baseline) * SCALE,
            baseline,
        ),
    }
}

/// The exact variance is strictly less than `bound`. In percentage mode the
/// comparison `(current - baseline) / baseline < bound / SCALE` is decided by
/// cross-multiplication, so no rounding enters the decision.
pub open spec fn variance_below(
    mode: MonitorThresholdMode,
    current: int,
    baseline: int,
    bound: int,
) -> bool
    recommends
        variance_defined(mode, baseline),
{
    match mode {
        MonitorThresholdMode::Absolute => current - baseline < bound,
        MonitorThresholdMode::Percentage => if baseline > 0 {
            (current - baseline) * SCALE < bound * baseline
        } else {
            (current - baseline) * SCALE > bound * baseline
        },
    }
}

/// The exact variance is strictly greater than `bound`.
pub open spec fn variance_above(
    mode: MonitorThresholdMode,
    current: int,
    baseline: int,
    bound: int,
) -> bool
    recommends
        variance_defined(mode, baseline),
{
    match mode {
        MonitorThresholdMode::Absolute => current - baseline > bound,
        MonitorThresholdMode::Percentage => if baseline > 0 {
            (current - baseline) * SCALE > bound * baseline
        } else {
            (current - baseline) * SCALE < bound * baseline
        },
    }
}

/// The lower bound is set and the variance lies under it.
pub open spec fn breaches_low(
    mode: MonitorThresholdMode,
    lower: Option<i64>,
    current: int,
    baseline: int,
) -> bool {
    lower is Some && variance_below(mode, current, baseline, lower->0 as int)
}

/// The upper bound is set and the variance lies over it.
pub open spec fn breaches_high(
    mode: MonitorThresholdMode,
    upper: Option<i64>,
    current: int,
    baseline: int,
) -> bool {
    upper is Some && variance_above(mode, current, baseline, upper->0 as int)
}

/// What the evaluator returns: indeterminate where the variance is undefined,
/// else a breach on the low side, else one on the high side, else none.
pub open spec fn evaluation_of(
    mode: MonitorThresholdMode,
    lower: Option<i64>,
    upper: Option<i64>,
    current: int,
    baseline: int,
) -> Evaluation {
    if !variance_defined(mode, baseline) {
        Evaluation::Indeterminate
    } else if breaches_low(mode, lower, current, baseline) {
        Evaluation::Breach {
            direction: BreachDirection::Low,
            variance: variance_of(mode, current, baseline) as i128,
        }
    } else if breaches_high(mode, upper, current, baseline) {
        Evaluation::Breach {
            direction: BreachDirection::High,
            variance: variance_of(mode, current, baseline) as i128,
        }
    } else {
        Evaluation::NoBreach
    }
}

/// The rounded variance always fits the `i128` in which it is reported.
pub proof fn lemma_variance_fits(mode: MonitorThresholdMode, current: i64, baseline: i64)
    requires
        variance_defined(mode, baseline as int),
    ensures
        i128::MIN < variance_of(mode, current as int, baseline as int) < i128::MAX,
{
    let n = (current as int - baseline as int) * SCALE;
    let b = baseline as int;
    if mode == MonitorThresholdMode::Percentage {
        assert(-0x1_0000_0000_0000_0000 * 1_000_000 <= n <= 0x1_0000_0000_0000_0000 * 1_000_000)
            by (nonlinear_arith)
            requires
                n == (current as int - baseline as int) * 1_000_000,
                -0x1_0000_0000_0000_0000 <= current as int - baseline as int
                    <= 0x1_0000_0000_0000_0000,
        ;
        lemma_div_toward_zero_bound(n, b);
    }
}

/// Rounding toward zero never moves a quotient away from zero past the
/// numerator.
pub proof fn lemma_div_toward_zero_bound(n: int, d: int)
    requires
        d != 0,
    ensures
        n >= 0 ==> -n <= div_toward_zero(n, d) <= n,
        n < 0 ==> n <= div_toward_zero(n, d) <= -n,
{
    let na = if n >= 0 { n } else { -n };
    let da = if d > 0 { d } else { -d };
    assert(0 <= na / da <= na) by (nonlinear_arith)
        requires
            na >= 0,
            da > 0,
    ;
}

/// In percentage mode a baseline of zero is indeterminate, whatever the
/// current value and the bounds are; in no other case is an evaluation
/// indeterminate.
pub proof fn lemma_indeterminate_iff_zero_baseline(
    mode: MonitorThresholdMode,
    lower: Option<i64>,
    upper: Option<i64>,
    current: int,
    baseline: int,
)
    ensures
        evaluation_of(mode, lower, upper, current, baseline) is Indeterminate <==> mode
            == MonitorThresholdMode::Percentage && baseline == 0,
{
}

/// An evaluation is a breach exactly where the variance lies under the lower
/// bound or over the upper one, and it names the low side wherever the lower
/// bound is crossed.
pub proof fn lemma_breach_iff_bound_crossed(
    mode: MonitorThresholdMode,
    lower: Option<i64>,
    upper: Option<i64>,
    current: int,
    baseline: int,
)
    requires
        variance_defined(mode, baseline),
    ensures
        evaluation_of(mode, lower, upper, current, baseline) is Breach <==> breaches_low(
            mode,
            lower,
            current,
            baseline,
        ) || breaches_high(mode, upper, current, baseline),
        evaluation_of(mode, lower, upper, current, baseline) is Breach ==> (evaluation_of(
            mode,
            lower,
            upper,
            current,
            baseline,
        )->direction == BreachDirection::Low <==> breaches_low(mode, lower, current, baseline)),
        evaluation_of(mode, lower, upper, current, baseline) is NoBreach <==> !breaches_low(
            mode,
            lower,
            current,
            baseline,
        ) && !breaches_high(mode, upper, current, baseline),
{
}

/// A threshold without bounds is never breached.
pub proof fn lemma_no_bounds_no_breach(mode: MonitorThresholdMode, current: int, baseline: int)
    ensures
        !(evaluation_of(mode, None, None, current, baseline) is Breach),
{
}

/// Where the lower bound does not lie over the upper one, no variance
/// crosses both.
pub proof fn lemma_one_side_only(
    mode: MonitorThresholdMode,
    lower: i64,
    upper: i64,
    current: int,
    baseline: int,
)
    requires
        variance_defined(mode, baseline),
        lower <= upper,
    ensures
        !(variance_below(mode, current, baseline, lower as int) && variance_above(
            mode,
            current,
            baseline,
            upper as int,
        )),
{
    if mode == MonitorThresholdMode::Percentage {
        if baseline > 0 {
            assert(lower * baseline <= upper * baseline) by (nonlinear_arith)
                requires
                    lower <= upper,
                    baseline > 0,
            ;
        } else {
            assert(lower * baseline >= upper * baseline) by (nonlinear_arith)
                requires
                    lower <= upper,
                    baseline < 0,
            ;
        }
    }
}

/// A quotient rounded toward zero lies within one of the exact quotient, on
/// the side of zero.
pub proof fn lemma_rounded_quotient(n: int, d: int)
    requires
        d > 0,
    ensures
        n >= 0 ==> div_toward_zero(n, d) * d <= n < (div_toward_zero(n, d) + 1) * d,
        n < 0 ==> (div_toward_zero(n, d) - 1) * d < n <= div_toward_zero(n, d) * d,
        div_toward_zero(-n, -d) == div_toward_zero(n, d),
{
    let size = if n >= 0 {
        n
    } else {
        -n
    };
    let q = size / d;
    vstd::arithmetic::div_mod::lemma_fundamental_div_mod(size, d);
    vstd::arithmetic::div_mod::lemma_mod_bound(size, d);
    assert(q * d <= size < (q + 1) * d) by (nonlinear_arith)
        requires
            size == d * q + size % d,
            0 <= size % d,
            (size % d) < d,
    ;
    if n < 0 {
        assert((-q - 1) * d == -((q + 1) * d) && (-q) * d == -(q * d)) by (nonlinear_arith);
    }
}

/// The variance that is reported with a breach lies on the side of the bound
/// that was crossed, or on the bound itself where rounding brought it there:
/// at or under the lower bound, at or over the upper one.
pub proof fn lemma_reported_variance_past_bound(
    mode: MonitorThresholdMode,
    current: int,
    baseline: int,
    bound: int,
)
    requires
        variance_defined(mode, baseline),
    ensures
        variance_below(mode, current, baseline, bound) ==> variance_of(mode, current, baseline)
            <= bound,
        variance_above(mode, current, baseline, bound) ==> variance_of(mode, current, baseline)
            >= bound,
{
    if mode == MonitorThresholdMode::Percentage {
        // the same quotient with a positive divisor
        let n = if baseline > 0 {
            (current - baseline) * SCALE
        } else {
            -((current - baseline) * SCALE)
        };
        let d = if baseline > 0 {
            baseline
        } else {
            -baseline
        };
        lemma_rounded_quotient(n, d);
        if baseline < 0 {
            assert(bound * baseline == -(bound * d)) by (nonlinear_arith)
                requires
                    d == -baseline,
            ;
        }
        let r = div_toward_zero(n, d);
        assert(r == variance_of(mode, current, baseline));
        if n < bound * d {
            assert(r <= bound) by (nonlinear_arith)
                requires
                    n < bound * d,
                    d > 0,
                    n >= 0 ==> r * d <= n,
                    n < 0 ==> (r - 1) * d < n,
            ;
        }
        if n > bound * d {
            assert(r >= bound) by (nonlinear_arith)
                requires
                    n > bound * d,
                    d > 0,
                    n >= 0 ==> n < (r + 1) * d,
                    n < 0 ==> n <= r * d,
            ;
        }
    }
}

fn quotient_toward_zero(n: i128, d: i64) -> (q: i128)
    requires
        d != 0,
        -0x1_0000_0000_0000_0000 * 1_000_000 <= n <= 0x1_0000_0000_0000_0000 * 1_000_000,
    ensures
        q == div_toward_zero(n as int, d as int),
{
    proof {
        lemma_div_toward_zero_bound(n as int, d as int);
    }
    let na: u128 = if n >= 0 {
        n as u128
    } else {
        (-n) as u128
    };
    let da: u128 = if d > 0 {
        d as u128
    } else {
        (-(d as i128)) as u128
    };
    let qa: u128 = na / da;
    assert(qa <= na) by (nonlinear_arith)
        requires
            qa == na / da,
            da > 0,
    ;
    if (n >= 0) == (d > 0) {
        qa as i128
    } else {
        -(qa as i128)
    }
}

fn is_below(mode: MonitorThresholdMode, current: i64, baseline: i64, bound: i64) -> (r: bool)
    requires
        variance_defined(mode, baseline as int),
    ensures
        r == variance_below(mode, current as int, baseline as int, bound as int),
{
    match mode {
        MonitorThresholdMode::Absolute => (current as i128) - (baseline as i128) < bound as i128,
        MonitorThresholdMode::Percentage => {
            let lhs: i128 = scaled_difference(current, baseline);
            let rhs: i128 = cross_product(bound, baseline);
            if baseline > 0 {
                lhs < rhs
            } else {
                lhs > rhs
            }
        },
    }
}

fn is_above(mode: MonitorThresholdMode, current: i64, baseline: i64, bound: i64) -> (r: bool)
    requires
        variance_defined(mode, baseline as int),
    ensures
        r == variance_above(mode, current as int, baseline as int, bound as int),
{
    match mode {
        MonitorThresholdMode::Absolute => (current as i128) - (baseline as i128) > bound as i128,
        MonitorThresholdMode::Percentage => {
            let lhs: i128 = scaled_difference(current, baseline);
            let rhs: i128 = cross_product(bound, baseline);
            if baseline > 0 {
                lhs > rhs
            } else {
                lhs < rhs
            }
        },
    }
}

fn scaled_difference(current: i64, baseline: i64) -> (n: i128)
    ensures
        n == (current as int - baseline as int) * SCALE,
        -0x1_0000_0000_0000_0000 * 1_000_000 <= n <= 0x1_0000_0000_0000_0000 * 1_000_000,
{
    let d: i128 = (current as i128) - (baseline as i128);
    assert(-0x1_0000_0000_0000_0000 * 1_000_000 <= d * 1_000_000 <= 0x1_0000_0000_0000_0000
        * 1_000_000) by (nonlinear_arith)
        requires
            -0x1_0000_0000_0000_0000 <= d <= 0x1_0000_0000_0000_0000,
    ;
    d * 1_000_000
}

fn cross_product(bound: i64, baseline: i64) -> (p: i128)
    ensures
        p == bound as int * baseline as int,
{
    assert(-0x8000_0000_0000_0000 * 0x8000_0000_0000_0000 <= bound as int * baseline as int
        <= 0x8000_0000_0000_0000 * 0x8000_0000_0000_0000) by (nonlinear_arith)
        requires
            -0x8000_0000_0000_0000 <= bound as int <= 0x8000_0000_0000_0000,
            -0x8000_0000_0000_0000 <= baseline as int <= 0x8000_0000_0000_0000,
    ;
    (bound as i128) * (baseline as i128)
}

fn variance(mode: MonitorThresholdMode, current: i64, baseline: i64) -> (v: i128)
    requires
        variance_defined(mode, baseline as int),
    ensures
        v == variance_of(mode, current as int, baseline as int),
{
    match mode {
        MonitorThresholdMode::Absolute => (current as i128) - (baseline as i128),
        MonitorThresholdMode::Percentage => quotient_toward_zero(
            scaled_difference(current, baseline),
            baseline,
        ),
    }
}

/// Holds `current` against `baseline` under `threshold`.
///
/// Both values are in fixed-point units. Percentage mode with a baseline of
/// zero gives `Indeterminate` whatever `current` is. Otherwise the lower bound
/// is tried first, then the upper one.
pub fn evaluate(current: i64, baseline: i64, threshold: &MonitorThreshold) -> (r: Evaluation)
    ensures
        r == evaluation_of(
            threshold.mode,
            threshold.variance_lower,
            threshold.variance_upper,
            current as int,
            baseline as int,
        ),
{
    let mode = threshold.mode;
    if matches!(mode, MonitorThresholdMode::Percentage) && baseline == 0 {
        return Evaluation::Indeterminate;
    }
    let low = match threshold.variance_lower {
        Some(lower) => is_below(mode, current, baseline, lower),
        None => false,
    };
    if low {
        return Evaluation::Breach {
            direction: BreachDirection::Low,
            variance: variance(mode, current, baseline),
        };
    }
    let high = match threshold.variance_upper {
        Some(upper) => is_above(mode, current, baseline, upper),
        None => false,
    };
    if high {
        Evaluation::Breach {
            direction: BreachDirection::High,
            variance: variance(mode, current, baseline),
        }
    } else {
        Evaluation::NoBreach
    }
}

} // verus!
