//! The metric computer: one number for the predictions of one window.
//!
//! Only predictions whose time lies in the window and whose true value is
//! known are scored. A window without such predictions gives no number.

use vstd::prelude::*;
use crate::evaluation::Reading;
use crate::threshold::AlertMetric;

verus! {

/// The class number of the positive class of a binary classifier.
pub const POSITIVE: i64 = 1;

/// One prediction with what is known of the truth.
///
/// For a regressor `predicted` and `actual` are values in fixed-point units.
/// For a classifier they are class numbers, and `score` is the probability
/// of the positive class in fixed-point units.
#[derive(Clone, Copy, Debug, PartialEq, Eq, Structural, Hash)]
pub struct Sample {
    pub timestamp: i64,
    pub predicted: i64,
    pub score: i64,
    pub actual: Option<i64>,
}

/// What is counted over a window.
#[derive(Clone, Copy, Debug, PartialEq, Eq, Structural, Hash)]
pub enum Tally {
    /// Predictions in the window whose truth is known.
    Usable,
    /// Usable predictions that name the true class.
    Correct,
    /// Usable predictions of the positive class that are true.
    TruePositive,
    /// Usable predictions of the positive class that are false.
    FalsePositive,
    /// Usable predictions of another class where the positive one is true.
    FalseNegative,
    /// Usable predictions where the positive class is true.
    ActualPositive,
    /// Usable predictions where another class is true.
    ActualNegative,
}

/// The prediction lies in the window `[start, end)` and its truth is known.
pub open spec fn usable(sample: Sample, start: i64, end: i64) -> bool {
    start <= sample.timestamp < end && sample.actual is Some
}

/// Whether a prediction counts for a tally over the window `[start, end)`.
pub open spec fn counts(tally: Tally, sample: Sample, start: i64, end: i64) -> bool {
    usable(sample, start, end) && match tally {
        Tally::Usable => true,
        Tally::Correct => sample.actual == Some(sample.predicted),
        Tally::TruePositive => sample.predicted == POSITIVE && sample.actual == Some(POSITIVE),
        Tally::FalsePositive => sample.predicted == POSITIVE && sample.actual != Some(POSITIVE),
        Tally::FalseNegative => sample.predicted != POSITIVE && sample.actual == Some(POSITIVE),
        Tally::ActualPositive => sample.actual == Some(POSITIVE),
        Tally::ActualNegative => sample.actual != Some(POSITIVE),
    }
}

/// How many predictions count for a tally.
pub open spec fn tally_of(samples: Seq<Sample>, tally: Tally, start: i64, end: i64) -> nat
    decreases samples.len(),
{
    if samples.len() == 0 {
        0
    } else {
        tally_of(samples.drop_last(), tally, start, end) + if counts(
            tally,
            samples.last(),
            start,
            end,
        ) {
            1nat
        } else {
            0nat
        }
    }
}

/// The share `part / whole` in fixed-point units, rounded down; no number
/// where the whole is empty.
pub open spec fn share_of(part: nat, whole: nat) -> Reading {
    if whole == 0 {
        Reading::NoData
    } else {
        Reading::Value((part * 1_000_000 / whole) as i64)
    }
}

/// Accuracy: the correct predictions among the usable ones.
pub open spec fn accuracy_of(samples: Seq<Sample>, start: i64, end: i64) -> Reading {
    share_of(
        tally_of(samples, Tally::Correct, start, end),
        tally_of(samples, Tally::Usable, start, end),
    )
}

/// Precision: the true positives among the predicted positives.
pub open spec fn precision_of(samples: Seq<Sample>, start: i64, end: i64) -> Reading {
    share_of(
        tally_of(samples, Tally::TruePositive, start, end),
        tally_of(samples, Tally::TruePositive, start, end) + tally_of(
            samples,
            Tally::FalsePositive,
            start,
            end,
        ),
    )
}

/// Recall: the true positives among the actual positives.
pub open spec fn recall_of(samples: Seq<Sample>, start: i64, end: i64) -> Reading {
    share_of(
        tally_of(samples, Tally::TruePositive, start, end),
        tally_of(samples, Tally::TruePositive, start, end) + tally_of(
            samples,
            Tally::FalseNegative,
            start,
            end,
        ),
    )
}

/// F1: twice the true positives among twice the true positives and all
/// errors.
pub open spec fn f1_of(samples: Seq<Sample>, start: i64, end: i64) -> Reading {
    share_of(
        2 * tally_of(samples, Tally::TruePositive, start, end),
        2 * tally_of(samples, Tally::TruePositive, start, end) + tally_of(
            samples,
            Tally::FalsePositive,
            start,
            end,
        ) + tally_of(samples, Tally::FalseNegative, start, end),
    )
}

/// A tally never exceeds the number of predictions, and one more prediction
/// adds one or nothing.
pub proof fn lemma_tally_step(samples: Seq<Sample>, tally: Tally, start: i64, end: i64, i: int)
    requires
        0 <= i < samples.len(),
    ensures
        tally_of(samples.take(i + 1), tally, start, end) == tally_of(
            samples.take(i),
            tally,
            start,
            end,
        ) + if counts(tally, samples[i], start, end) {
            1nat
        } else {
            0nat
        },
{
    assert(samples.take(i + 1).drop_last() =~= samples.take(i));
}

/// A tally never exceeds the number of predictions.
pub proof fn lemma_tally_bound(samples: Seq<Sample>, tally: Tally, start: i64, end: i64)
    ensures
        tally_of(samples, tally, start, end) <= samples.len(),
    decreases samples.len(),
{
    if samples.len() > 0 {
        lemma_tally_bound(samples.drop_last(), tally, start, end);
    }
}

/// The three tallies of a binary classifier count different predictions, so
/// together they never exceed the usable ones.
pub proof fn lemma_confusion_bound(samples: Seq<Sample>, start: i64, end: i64)
    ensures
        tally_of(samples, Tally::TruePositive, start, end) + tally_of(
            samples,
            Tally::FalsePositive,
            start,
            end,
        ) + tally_of(samples, Tally::FalseNegative, start, end) <= tally_of(
            samples,
            Tally::Usable,
            start,
            end,
        ),
        tally_of(samples, Tally::Correct, start, end) <= tally_of(
            samples,
            Tally::Usable,
            start,
            end,
        ),
    decreases samples.len(),
{
    if samples.len() > 0 {
        lemma_confusion_bound(samples.drop_last(), start, end);
    }
}

fn is_counted(tally: Tally, sample: &Sample, start: i64, end: i64) -> (r: bool)
    ensures
        r == counts(tally, *sample, start, end),
{
    if !(start <= sample.timestamp && sample.timestamp < end) {
        return false;
    }
    match sample.actual {
        None => false,
        Some(actual) => match tally {
            Tally::Usable => true,
            Tally::Correct => actual == sample.predicted,
            Tally::TruePositive => sample.predicted == POSITIVE && actual == POSITIVE,
            Tally::FalsePositive => sample.predicted == POSITIVE && actual != POSITIVE,
            Tally::FalseNegative => sample.predicted != POSITIVE && actual == POSITIVE,
            Tally::ActualPositive => actual == POSITIVE,
            Tally::ActualNegative => actual != POSITIVE,
        },
    }
}

/// Counts the predictions of the window `[start, end)` that count for a
/// tally.
pub fn count(samples: &Vec<Sample>, tally: Tally, start: i64, end: i64) -> (n: usize)
    ensures
        n == tally_of(samples@, tally, start, end),
{
    let mut n: usize = 0;
    let mut i: usize = 0;
    while i < samples.len()
        invariant
            i <= samples@.len(),
            n <= i,
            n == tally_of(samples@.take(i as int), tally, start, end),
        decreases samples@.len() - i,
    {
        proof {
            lemma_tally_step(samples@, tally, start, end, i as int);
        }
        if is_counted(tally, &samples[i], start, end) {
            n = n + 1;
        }
        i = i + 1;
    }
    assert(samples@.take(i as int) =~= samples@);
    n
}

/// The share `part / whole` in fixed-point units, rounded down.
pub fn share(part: u128, whole: u128) -> (r: Reading)
    requires
        part <= whole <= 0x4_0000_0000_0000_0000,
    ensures
        r == share_of(part as nat, whole as nat),
{
    if whole == 0 {
        return Reading::NoData;
    }
    assert(part * 1_000_000 <= 0x4_0000_0000_0000_0000 * 1_000_000) by (nonlinear_arith)
        requires
            part <= 0x4_0000_0000_0000_0000,
    ;
    let scaled: u128 = part * 1_000_000;
    let quotient: u128 = scaled / whole;
    assert(quotient <= 1_000_000) by (nonlinear_arith)
        requires
            quotient == scaled / whole,
            scaled == part * 1_000_000,
            part <= whole,
            whole > 0,
    ;
    Reading::Value(quotient as i64)
}

/// Accuracy over the window `[start, end)`.
pub fn accuracy(samples: &Vec<Sample>, start: i64, end: i64) -> (r: Reading)
    ensures
        r == accuracy_of(samples@, start, end),
{
    let correct = count(samples, Tally::Correct, start, end);
    let usable = count(samples, Tally::Usable, start, end);
    proof {
        lemma_confusion_bound(samples@, start, end);
    }
    share(correct as u128, usable as u128)
}

/// Precision over the window `[start, end)`.
pub fn precision(samples: &Vec<Sample>, start: i64, end: i64) -> (r: Reading)
    ensures
        r == precision_of(samples@, start, end),
{
    let hits = count(samples, Tally::TruePositive, start, end);
    let false_alarms = count(samples, Tally::FalsePositive, start, end);
    share(hits as u128, hits as u128 + false_alarms as u128)
}

/// Recall over the window `[start, end)`.
pub fn recall(samples: &Vec<Sample>, start: i64, end: i64) -> (r: Reading)
    ensures
        r == recall_of(samples@, start, end),
{
    let hits = count(samples, Tally::TruePositive, start, end);
    let misses = count(samples, Tally::FalseNegative, start, end);
    share(hits as u128, hits as u128 + misses as u128)
}

/// F1 over the window `[start, end)`.
pub fn f1(samples: &Vec<Sample>, start: i64, end: i64) -> (r: Reading)
    ensures
        r == f1_of(samples@, start, end),
{
    let hits = count(samples, Tally::TruePositive, start, end);
    let false_alarms = count(samples, Tally::FalsePositive, start, end);
    let misses = count(samples, Tally::FalseNegative, start, end);
    share(
        2 * (hits as u128),
        2 * (hits as u128) + false_alarms as u128 + misses as u128,
    )
}

/// The squared error of a prediction that is scored, zero of any other. The
/// error is in fixed-point units, its square in squares of them.
pub open spec fn squared_error(sample: Sample, start: i64, end: i64) -> nat {
    if usable(sample, start, end) {
        ((sample.predicted - sample.actual->0) * (sample.predicted - sample.actual->0)) as nat
    } else {
        0
    }
}

/// The sum of the squared errors.
pub open spec fn squares_of(samples: Seq<Sample>, start: i64, end: i64) -> nat
    decreases samples.len(),
{
    if samples.len() == 0 {
        0
    } else {
        squares_of(samples.drop_last(), start, end) + squared_error(samples.last(), start, end)
    }
}

/// The smaller of a value and a cap.
pub open spec fn capped(value: nat, cap: nat) -> nat {
    if value < cap {
        value
    } else {
        cap
    }
}

/// `root` is the square root of `value`, rounded down.
pub open spec fn is_root(root: nat, value: nat) -> bool {
    root * root <= value < (root + 1) * (root + 1)
}

/// The square root of a number, rounded down.
pub open spec fn root_of(value: nat) -> nat {
    choose|root: nat| is_root(root, value)
}

/// The mean squared error in fixed-point units, rounded down, and capped
/// at the largest value that can be told.
pub open spec fn mse_of(samples: Seq<Sample>, start: i64, end: i64) -> Reading {
    let scored = tally_of(samples, Tally::Usable, start, end);
    if scored == 0 {
        Reading::NoData
    } else {
        Reading::Value(
            capped(squares_of(samples, start, end) / (scored * 1_000_000), i64::MAX as nat) as i64,
        )
    }
}

/// The root of the mean squared error in fixed-point units, rounded down,
/// and capped at the largest value that can be told.
pub open spec fn rmse_of(samples: Seq<Sample>, start: i64, end: i64) -> Reading {
    let scored = tally_of(samples, Tally::Usable, start, end);
    if scored == 0 {
        Reading::NoData
    } else {
        Reading::Value(
            capped(root_of(squares_of(samples, start, end) / scored), i64::MAX as nat) as i64,
        )
    }
}

/// One more prediction adds its squared error to the sum.
pub proof fn lemma_squares_step(samples: Seq<Sample>, start: i64, end: i64, i: int)
    requires
        0 <= i < samples.len(),
    ensures
        squares_of(samples.take(i + 1), start, end) == squares_of(samples.take(i), start, end)
            + squared_error(samples[i], start, end),
{
    assert(samples.take(i + 1).drop_last() =~= samples.take(i));
}

/// The sum over a part of the predictions never exceeds the sum over all.
pub proof fn lemma_squares_grow(samples: Seq<Sample>, start: i64, end: i64, i: int)
    requires
        0 <= i <= samples.len(),
    ensures
        squares_of(samples.take(i), start, end) <= squares_of(samples, start, end),
    decreases samples.len() - i,
{
    if i < samples.len() {
        lemma_squares_step(samples, start, end, i);
        lemma_squares_grow(samples, start, end, i + 1);
    } else {
        assert(samples.take(i) =~= samples);
    }
}

/// A number has one square root only.
pub proof fn lemma_root_unique(a: nat, b: nat, value: nat)
    requires
        is_root(a, value),
        is_root(b, value),
    ensures
        a == b,
{
    if a < b {
        assert((a + 1) * (a + 1) <= b * b) by (nonlinear_arith)
            requires
                a + 1 <= b,
        ;
    } else if b < a {
        assert((b + 1) * (b + 1) <= a * a) by (nonlinear_arith)
            requires
                b + 1 <= a,
        ;
    }
}

/// The root of a number is the one number that `is_root` of it.
pub proof fn lemma_root_of(root: nat, value: nat)
    requires
        is_root(root, value),
    ensures
        root_of(value) == root,
{
    lemma_root_unique(root, root_of(value), value);
}

/// Every number has a square root.
pub proof fn lemma_root_exists(value: nat)
    ensures
        is_root(root_of(value), value),
    decreases value,
{
    if value == 0 {
        assert(is_root(0, 0)) by (nonlinear_arith);
    } else {
        lemma_root_exists((value - 1) as nat);
        let before = root_of((value - 1) as nat);
        if (before + 1) * (before + 1) <= value {
            assert((before + 2) * (before + 2) > value) by (nonlinear_arith)
                requires
                    (before + 1) * (before + 1) > value - 1,
            ;
            assert(is_root(before + 1, value));
        } else {
            assert(is_root(before, value));
        }
    }
}

fn squared_error_of(sample: &Sample, start: i64, end: i64) -> (r: u128)
    ensures
        r == squared_error(*sample, start, end),
{
    if !(start <= sample.timestamp && sample.timestamp < end) {
        return 0;
    }
    match sample.actual {
        None => 0,
        Some(actual) => {
            let gap: i128 = sample.predicted as i128 - actual as i128;
            let size: u128 = if gap >= 0 {
                gap as u128
            } else {
                (-gap) as u128
            };
            assert(size * size <= 0xffff_ffff_ffff_ffff * 0xffff_ffff_ffff_ffff) by (nonlinear_arith)
                requires
                    size <= 0xffff_ffff_ffff_ffff,
            ;
            assert(size * size == gap * gap) by (nonlinear_arith)
                requires
                    size == gap || size == -gap,
            ;
            size * size
        },
    }
}

/// The sum of the squared errors over `divisor`, rounded down and capped.
fn mean_of_squares(
    samples: &Vec<Sample>,
    start: i64,
    end: i64,
    divisor: u128,
    cap: u128,
) -> (r: u128)
    requires
        0 < divisor <= 0x1_0000_0000_0000_0000 * 1_000_000,
        cap <= 0x4000_0000_0000_0000_0000_0000_0000_0000,
    ensures
        r == capped(squares_of(samples@, start, end) / divisor as nat, cap as nat),
{
    let mut whole: u128 = 0;
    let mut rest: u128 = 0;
    let mut i: usize = 0;
    while i < samples.len()
        invariant
            i <= samples@.len(),
            0 < divisor <= 0x1_0000_0000_0000_0000 * 1_000_000,
            cap <= 0x4000_0000_0000_0000_0000_0000_0000_0000,
            whole < cap || whole == 0,
            rest < divisor,
            whole * divisor + rest == squares_of(samples@.take(i as int), start, end),
        decreases samples@.len() - i,
    {
        let square = squared_error_of(&samples[i], start, end);
        let more = square / divisor;
        let left = square % divisor;
        let ghost before = squares_of(samples@.take(i as int), start, end);
        let ghost after = squares_of(samples@.take(i + 1), start, end);
        proof {
            lemma_squares_step(samples@, start, end, i as int);
            lemma_squares_grow(samples@, start, end, i + 1);
            vstd::arithmetic::div_mod::lemma_fundamental_div_mod(square as int, divisor as int);
        }
        let carry: u128 = if rest + left >= divisor {
            1
        } else {
            0
        };
        let ghost grown = whole + more + carry;
        let ghost kept = rest + left - carry * divisor;
        proof {
            assert(grown * divisor + kept == after) by (nonlinear_arith)
                requires
                    whole * divisor + rest == before,
                    square == divisor * more + left,
                    after == before + square,
                    grown == whole + more + carry,
                    kept == rest + left - carry * divisor,
            ;
            assert(0 <= kept < divisor);
            vstd::arithmetic::div_mod::lemma_fundamental_div_mod_converse(
                after as int,
                divisor as int,
                grown as int,
                kept as int,
            );
            vstd::arithmetic::div_mod::lemma_div_is_ordered(
                after as int,
                squares_of(samples@, start, end) as int,
                divisor as int,
            );
        }
        if more >= cap {
            return cap;
        }
        if whole + more + carry >= cap {
            return cap;
        }
        whole = whole + more + carry;
        rest = rest + left - carry * divisor;
        i = i + 1;
    }
    proof {
        assert(samples@.take(i as int) =~= samples@);
        assert(whole * divisor + rest == squares_of(samples@, start, end));
        vstd::arithmetic::div_mod::lemma_fundamental_div_mod_converse(
            squares_of(samples@, start, end) as int,
            divisor as int,
            whole as int,
            rest as int,
        );
    }
    whole
}

/// The square root of a number, rounded down.
pub fn integer_root(value: u128) -> (root: u128)
    requires
        value <= 0x4000_0000_0000_0000_0000_0000_0000_0000,
    ensures
        is_root(root as nat, value as nat),
        root == root_of(value as nat),
        root <= 0x8000_0000_0000_0000,
{
    let mut low: u128 = 0;
    let mut high: u128 = 0x8000_0000_0000_0001;
    assert(0x8000_0000_0000_0001u128 * 0x8000_0000_0000_0001u128 > value) by (nonlinear_arith)
        requires
            value <= 0x4000_0000_0000_0000_0000_0000_0000_0000,
    ;
    while high - low > 1
        invariant
            low < high <= 0x8000_0000_0000_0001,
            low * low <= value < high * high,
        decreases high - low,
    {
        let middle: u128 = low + (high - low) / 2;
        assert(middle * middle <= 0x8000_0000_0000_0001 * 0x8000_0000_0000_0001)
            by (nonlinear_arith)
            requires
                middle <= 0x8000_0000_0000_0001,
        ;
        if middle * middle <= value {
            low = middle;
        } else {
            high = middle;
        }
    }
    proof {
        assert(high == low + 1);
        lemma_root_of(low as nat, value as nat);
    }
    low
}

/// The mean squared error over the window `[start, end)`.
pub fn mean_squared_error(samples: &Vec<Sample>, start: i64, end: i64) -> (r: Reading)
    ensures
        r == mse_of(samples@, start, end),
{
    let scored = count(samples, Tally::Usable, start, end);
    if scored == 0 {
        return Reading::NoData;
    }
    assert(scored * 1_000_000 <= 0x1_0000_0000_0000_0000 * 1_000_000) by (nonlinear_arith)
        requires
            scored <= 0x1_0000_0000_0000_0000,
    ;
    let mean = mean_of_squares(
        samples,
        start,
        end,
        (scored as u128) * 1_000_000,
        0x7fff_ffff_ffff_ffff,
    );
    Reading::Value(mean as i64)
}

/// The root of the mean squared error over the window `[start, end)`.
pub fn root_mean_squared_error(samples: &Vec<Sample>, start: i64, end: i64) -> (r: Reading)
    ensures
        r == rmse_of(samples@, start, end),
{
    let scored = count(samples, Tally::Usable, start, end);
    if scored == 0 {
        return Reading::NoData;
    }
    let mean = mean_of_squares(
        samples,
        start,
        end,
        scored as u128,
        0x4000_0000_0000_0000_0000_0000_0000_0000,
    );
    let root = integer_root(mean);
    proof {
        let exact = squares_of(samples@, start, end) / scored as nat;
        lemma_root_exists(exact);
        if exact >= 0x4000_0000_0000_0000_0000_0000_0000_0000 {
            let r = root_of(exact);
            assert(r >= 0x8000_0000_0000_0000) by (nonlinear_arith)
                requires
                    (r + 1) * (r + 1) > exact,
                    exact >= 0x4000_0000_0000_0000_0000_0000_0000_0000,
            ;
            assert(0x8000_0000_0000_0000 * 0x8000_0000_0000_0000
                == 0x4000_0000_0000_0000_0000_0000_0000_0000) by (nonlinear_arith);
            assert(is_root(0x8000_0000_0000_0000, 0x4000_0000_0000_0000_0000_0000_0000_0000))
                by (nonlinear_arith);
            lemma_root_of(0x8000_0000_0000_0000, 0x4000_0000_0000_0000_0000_0000_0000_0000);
        }
    }
    if root > 0x7fff_ffff_ffff_ffff {
        Reading::Value(0x7fff_ffff_ffff_ffff)
    } else {
        Reading::Value(root as i64)
    }
}

/// How a positive and a negative prediction compare by score.
#[derive(Clone, Copy, Debug, PartialEq, Eq, Structural, Hash)]
pub enum Pairing {
    /// The positive one has the higher score.
    Win,
    /// Both have the same score.
    Tie,
}

/// `first` is truly positive, `second` truly negative, and their scores
/// compare as the pairing says.
pub open spec fn pairs(
    pairing: Pairing,
    first: Sample,
    second: Sample,
    start: i64,
    end: i64,
) -> bool {
    counts(Tally::ActualPositive, first, start, end) && counts(
        Tally::ActualNegative,
        second,
        start,
        end,
    ) && match pairing {
        Pairing::Win => first.score > second.score,
        Pairing::Tie => first.score == second.score,
    }
}

/// How many predictions pair with `first`.
pub open spec fn row_of(
    samples: Seq<Sample>,
    pairing: Pairing,
    first: Sample,
    start: i64,
    end: i64,
) -> nat
    decreases samples.len(),
{
    if samples.len() == 0 {
        0
    } else {
        row_of(samples.drop_last(), pairing, first, start, end) + if pairs(
            pairing,
            first,
            samples.last(),
            start,
            end,
        ) {
            1nat
        } else {
            0nat
        }
    }
}

/// How many pairs there are of a prediction among `firsts` and one among
/// `samples`.
pub open spec fn pairs_of(
    firsts: Seq<Sample>,
    samples: Seq<Sample>,
    pairing: Pairing,
    start: i64,
    end: i64,
) -> nat
    decreases firsts.len(),
{
    if firsts.len() == 0 {
        0
    } else {
        pairs_of(firsts.drop_last(), samples, pairing, start, end) + row_of(
            samples,
            pairing,
            firsts.last(),
            start,
            end,
        )
    }
}

/// The area under the ROC curve in fixed-point units, rounded down: among
/// all pairs of a truly positive and a truly negative prediction, the share
/// in which the positive one has the higher score, a tie counting half.
pub open spec fn auc_roc_of(samples: Seq<Sample>, start: i64, end: i64) -> Reading {
    let positives = tally_of(samples, Tally::ActualPositive, start, end);
    let negatives = tally_of(samples, Tally::ActualNegative, start, end);
    share_of(
        2 * pairs_of(samples, samples, Pairing::Win, start, end) + pairs_of(
            samples,
            samples,
            Pairing::Tie,
            start,
            end,
        ),
        2 * positives * negatives,
    )
}

/// The metric of a window.
pub open spec fn metric_of(
    metric: AlertMetric,
    samples: Seq<Sample>,
    start: i64,
    end: i64,
) -> Reading {
    match metric {
        AlertMetric::Accuracy => accuracy_of(samples, start, end),
        AlertMetric::AucRoc => auc_roc_of(samples, start, end),
        AlertMetric::Precision => precision_of(samples, start, end),
        AlertMetric::Recall => recall_of(samples, start, end),
        AlertMetric::F1 => f1_of(samples, start, end),
        AlertMetric::MeanSquaredError => mse_of(samples, start, end),
        AlertMetric::RootMeanSquaredError => rmse_of(samples, start, end),
    }
}

/// One more prediction adds one pair or none to a row.
pub proof fn lemma_row_step(
    samples: Seq<Sample>,
    pairing: Pairing,
    first: Sample,
    start: i64,
    end: i64,
    i: int,
)
    requires
        0 <= i < samples.len(),
    ensures
        row_of(samples.take(i + 1), pairing, first, start, end) == row_of(
            samples.take(i),
            pairing,
            first,
            start,
            end,
        ) + if pairs(pairing, first, samples[i], start, end) {
            1nat
        } else {
            0nat
        },
{
    assert(samples.take(i + 1).drop_last() =~= samples.take(i));
}

/// The wins and the ties of one prediction together are at most the truly
/// negative predictions, and none where it is not truly positive.
pub proof fn lemma_row_bound(samples: Seq<Sample>, first: Sample, start: i64, end: i64)
    ensures
        row_of(samples, Pairing::Win, first, start, end) + row_of(
            samples,
            Pairing::Tie,
            first,
            start,
            end,
        ) <= if counts(Tally::ActualPositive, first, start, end) {
            tally_of(samples, Tally::ActualNegative, start, end)
        } else {
            0
        },
    decreases samples.len(),
{
    if samples.len() > 0 {
        lemma_row_bound(samples.drop_last(), first, start, end);
    }
}

/// The wins and the ties together are at most the pairs of a truly positive
/// and a truly negative prediction.
pub proof fn lemma_pairs_bound(firsts: Seq<Sample>, samples: Seq<Sample>, start: i64, end: i64)
    ensures
        pairs_of(firsts, samples, Pairing::Win, start, end) + pairs_of(
            firsts,
            samples,
            Pairing::Tie,
            start,
            end,
        ) <= tally_of(firsts, Tally::ActualPositive, start, end) * tally_of(
            samples,
            Tally::ActualNegative,
            start,
            end,
        ),
    decreases firsts.len(),
{
    if firsts.len() > 0 {
        let front = firsts.drop_last();
        lemma_pairs_bound(front, samples, start, end);
        lemma_row_bound(samples, firsts.last(), start, end);
        let negatives = tally_of(samples, Tally::ActualNegative, start, end);
        let before = tally_of(front, Tally::ActualPositive, start, end);
        assert((before + 1) * negatives == before * negatives + negatives) by (nonlinear_arith);
    } else {
        assert(0 * tally_of(samples, Tally::ActualNegative, start, end) == 0) by (nonlinear_arith);
    }
}

/// The truly positive and the truly negative predictions are different ones.
pub proof fn lemma_classes_bound(samples: Seq<Sample>, start: i64, end: i64)
    ensures
        tally_of(samples, Tally::ActualPositive, start, end) + tally_of(
            samples,
            Tally::ActualNegative,
            start,
            end,
        ) <= samples.len(),
    decreases samples.len(),
{
    if samples.len() > 0 {
        lemma_classes_bound(samples.drop_last(), start, end);
    }
}

fn is_paired(pairing: Pairing, first: &Sample, second: &Sample, start: i64, end: i64) -> (r: bool)
    ensures
        r == pairs(pairing, *first, *second, start, end),
{
    is_counted(Tally::ActualPositive, first, start, end) && is_counted(
        Tally::ActualNegative,
        second,
        start,
        end,
    ) && match pairing {
        Pairing::Win => first.score > second.score,
        Pairing::Tie => first.score == second.score,
    }
}

fn row(samples: &Vec<Sample>, pairing: Pairing, first: &Sample, start: i64, end: i64) -> (n: usize)
    ensures
        n == row_of(samples@, pairing, *first, start, end),
        n <= samples@.len(),
{
    let mut n: usize = 0;
    let mut i: usize = 0;
    while i < samples.len()
        invariant
            i <= samples@.len(),
            n <= i,
            n == row_of(samples@.take(i as int), pairing, *first, start, end),
        decreases samples@.len() - i,
    {
        proof {
            lemma_row_step(samples@, pairing, *first, start, end, i as int);
        }
        if is_paired(pairing, first, &samples[i], start, end) {
            n = n + 1;
        }
        i = i + 1;
    }
    assert(samples@.take(i as int) =~= samples@);
    n
}

/// Counts the pairs of a truly positive and a truly negative prediction of
/// the window `[start, end)` whose scores compare as the pairing says.
pub fn count_pairs(samples: &Vec<Sample>, pairing: Pairing, start: i64, end: i64) -> (n: u128)
    ensures
        n == pairs_of(samples@, samples@, pairing, start, end),
{
    let mut n: u128 = 0;
    let mut i: usize = 0;
    let length = samples.len();
    assert(0 * length == 0) by (nonlinear_arith);
    while i < samples.len()
        invariant
            i <= samples@.len(),
            length == samples@.len(),
            n <= i * length,
            n == pairs_of(samples@.take(i as int), samples@, pairing, start, end),
        decreases samples@.len() - i,
    {
        let more = row(samples, pairing, &samples[i], start, end);
        proof {
            assert(samples@.take(i + 1).drop_last() =~= samples@.take(i as int));
            assert((i + 1) * length == i * length + length) by (nonlinear_arith);
            assert((i + 1) * length <= 0xffff_ffff_ffff_ffff * 0xffff_ffff_ffff_ffff)
                by (nonlinear_arith)
                requires
                    i + 1 <= 0xffff_ffff_ffff_ffff,
                    length <= 0xffff_ffff_ffff_ffff,
            ;
        }
        n = n + more as u128;
        i = i + 1;
    }
    assert(samples@.take(i as int) =~= samples@);
    n
}

/// The product `value * times` as a multiple of `whole` and a rest below
/// `whole`.
fn multiple_of(value: u128, times: u128, whole: u128) -> (r: (u128, u128))
    requires
        0 < whole,
        value <= whole,
        times <= 0xffff_ffff_ffff_ffff,
    ensures
        r.0 * whole + r.1 == value * times,
        r.1 < whole,
        r.0 <= times,
    decreases times,
{
    if times == 0 {
        assert(0 * whole + 0 == value * 0) by (nonlinear_arith);
        return (0, 0);
    }
    let half = times / 2;
    let odd = times % 2 == 1;
    let (half_count, half_rest) = multiple_of(value, half, whole);
    // twice the half
    let doubled_over = half_rest >= whole - half_rest;
    let mut count: u128 = if doubled_over {
        2 * half_count + 1
    } else {
        2 * half_count
    };
    let mut rest: u128 = if doubled_over {
        half_rest - (whole - half_rest)
    } else {
        half_rest + half_rest
    };
    assert(count * whole + rest == value * (2 * half)) by (nonlinear_arith)
        requires
            half_count * whole + half_rest == value * half,
            (count == 2 * half_count + 1 && rest == 2 * half_rest - whole) || (count == 2
                * half_count && rest == 2 * half_rest),
    ;
    if odd {
        if rest >= whole - value {
            assert((count + 1) * whole + (rest - (whole - value)) == count * whole + rest + value)
                by (nonlinear_arith);
            count = count + 1;
            rest = rest - (whole - value);
        } else {
            rest = rest + value;
        }
    }
    assert(count * whole + rest == value * times) by (nonlinear_arith)
        requires
            count * whole + rest == value * (2 * half) + if odd {
                value as int
            } else {
                0
            },
            times == 2 * half + if odd {
                1int
            } else {
                0
            },
    ;
    assert(count <= times) by (nonlinear_arith)
        requires
            count * whole + rest == value * times,
            value <= whole,
            0 < whole,
            0 <= rest,
            0 <= times,
            0 <= count,
    ;
    (count, rest)
}

/// The area under the ROC curve over the window `[start, end)`.
pub fn auc_roc(samples: &Vec<Sample>, start: i64, end: i64) -> (r: Reading)
    ensures
        r == auc_roc_of(samples@, start, end),
{
    let positives = count(samples, Tally::ActualPositive, start, end);
    let negatives = count(samples, Tally::ActualNegative, start, end);
    if positives == 0 || negatives == 0 {
        assert(2 * positives * negatives == 0) by (nonlinear_arith)
            requires
                positives == 0 || negatives == 0,
        ;
        return Reading::NoData;
    }
    let wins = count_pairs(samples, Pairing::Win, start, end);
    let ties = count_pairs(samples, Pairing::Tie, start, end);
    let length = samples.len();
    proof {
        lemma_pairs_bound(samples@, samples@, start, end);
        lemma_classes_bound(samples@, start, end);
        assert(4 * (positives * negatives) <= 0x1_0000_0000_0000_0000 * 0x1_0000_0000_0000_0000)
            by (nonlinear_arith)
            requires
                0 <= positives,
                0 <= negatives,
                positives + negatives <= 0x1_0000_0000_0000_0000,
        ;
        assert(positives * negatives >= 1) by (nonlinear_arith)
            requires
                positives >= 1,
                negatives >= 1,
        ;
        assert(2 * positives * negatives == 2 * (positives * negatives)) by (nonlinear_arith);
    }
    let all: u128 = 2 * ((positives as u128) * (negatives as u128));
    let won: u128 = 2 * wins + ties;
    let (whole, rest) = multiple_of(won, 1_000_000, all);
    proof {
        assert(won * 1_000_000 == whole * all + rest);
        vstd::arithmetic::div_mod::lemma_fundamental_div_mod_converse(
            won as int * 1_000_000,
            all as int,
            whole as int,
            rest as int,
        );
    }
    Reading::Value(whole as i64)
}

/// Computes the metric of a monitor over the predictions of the window
/// `[start, end)`.
///
/// A prediction outside the window, or one whose truth is not known, is left
/// out. `NoData` where nothing is left to compute the metric from.
pub fn compute_metric(
    metric: AlertMetric,
    samples: &Vec<Sample>,
    start: i64,
    end: i64,
) -> (r: Reading)
    ensures
        r == metric_of(metric, samples@, start, end),
{
    match metric {
        AlertMetric::Accuracy => accuracy(samples, start, end),
        AlertMetric::AucRoc => auc_roc(samples, start, end),
        AlertMetric::Precision => precision(samples, start, end),
        AlertMetric::Recall => recall(samples, start, end),
        AlertMetric::F1 => f1(samples, start, end),
        AlertMetric::MeanSquaredError => mean_squared_error(
            samples,
            start,
            end,
        ),
        AlertMetric::RootMeanSquaredError => root_mean_squared_error(
            samples,
            start,
            end,
        ),
    }
}

} // verus!
