//! Portfolio analytics in fixed point with 7 decimals (10^7 is 1.0), over
//! a series of daily portfolio values: return values, volatility, drawdown, win
//! rate, diversification and time-weighted return.
use vstd::prelude::*;
use crate::isqrt::{is_floor_sqrt, floor_sqrt, lemma_floor_sqrt_is, integer_sqrt};
use crate::liquidity_pool::TokenId;

verus! {

/// 1.0 in fixed point (7 decimals).
pub const FIXED_POINT_PRECISION: u128 = 10_000_000;

/// 1.0 in fixed point.
pub const FIXED_POINT_ONE: u128 = 10_000_000;

/// Assumed risk-free rate, 2% in fixed point.
pub const RISK_FREE_RATE: u128 = 2_000_000;

/// Seconds in a day.
pub const SECONDS_PER_DAY: u64 = 86400;

/// Period an analysis covers.
#[derive(Clone, Copy, Debug, PartialEq, Eq, Structural)]
pub enum TimeWindow {
    Day1,
    Day7,
    Day30,
    YTD,
    All,
}

/// An asset held in a portfolio.
#[derive(Clone, Copy, Debug, PartialEq, Eq, Structural)]
pub enum Asset {
    XLM,
    Custom(TokenId),
}

/// Risk and return figures of a portfolio (fixed point unless noted).
#[derive(Clone, Copy, Debug, PartialEq, Eq, Structural)]
pub struct PerformanceMetrics {
    pub sharpe_ratio: u128,
    pub sortino_ratio: u128,
    /// Largest fall from a peak, as a fraction of the peak
    pub max_drawdown: u128,
    /// Standard deviation of daily return values
    pub volatility: u128,
    /// Last value minus first value (raw amount)
    pub total_return: i128,
    /// Share of positive daily return values
    pub win_rate: u128,
}

/// Share of each asset in a portfolio and how evenly it is spread.
#[derive(Clone, Debug)]
pub struct AssetAllocation {
    /// Each asset and its share (fixed point)
    pub assets: Vec<(Asset, u128)>,
    /// Correlation of asset pairs (fixed point); none are computed
    pub correlations: Vec<((Asset, Asset), i128)>,
    /// 1.0 minus the Herfindahl index of the shares (fixed point)
    pub diversification_score: u128,
}

/// A portfolio's performance against a benchmark.
#[derive(Clone, Copy, Debug, PartialEq, Eq, Structural)]
pub struct BenchmarkComparison {
    pub alpha: i128,
    pub beta: u128,
    pub tracking_error: u128,
    pub information_ratio: i128,
}

/// Returns over a period of daily values.
#[derive(Clone, Copy, Debug, PartialEq, Eq, Structural)]
pub struct PeriodReturns {
    pub time_weighted_return: i128,
    pub arithmetic_return: i128,
    pub geometric_return: i128,
    pub start_value: i128,
    pub end_value: i128,
    pub period_days: u32,
}

/// Analytics over daily portfolio values.
pub struct PortfolioAnalytics;

/// Absolute value.
pub open spec fn abs_int(a: int) -> int {
    if a < 0 { -a } else { a }
}

/// Quotient rounded toward zero, as integer division does.
pub open spec fn trunc_div(a: int, b: int) -> int {
    let q = abs_int(a) / abs_int(b);
    if (a < 0) != (b < 0) { -q } else { q }
}

/// Magnitude of a signed 128-bit value.
fn magnitude(a: i128) -> (r: u128)
    ensures
        r == abs_int(a as int),
{
    if a < 0 {
        ((-(a + 1)) as u128) + 1
    } else {
        a as u128
    }
}

/// Quotient of two signed values rounded toward zero.
pub fn div_trunc(a: i128, b: i128) -> (r: i128)
    requires
        b != 0,
        !(a == i128::MIN && b == -1),
    ensures
        r == trunc_div(a as int, b as int),
{
    let ua = magnitude(a);
    let ub = magnitude(b);
    let q: u128 = ua / ub;
    proof {
        assert(q <= ua) by (nonlinear_arith)
            requires q == ua / ub, ub >= 1;
        if ub >= 2 {
            assert(q * 2 <= ua) by (nonlinear_arith)
                requires q == ua / ub, ub >= 2;
        }
    }
    if (a < 0) != (b < 0) {
        if q == 0x8000_0000_0000_0000_0000_0000_0000_0000u128 {
            i128::MIN
        } else {
            -(q as i128)
        }
    } else {
        q as i128
    }
}

/// `a - b`, floored at 0.
pub open spec fn sat_sub_nat(a: int, b: int) -> int {
    if a >= b { a - b } else { 0 }
}

/// `a * b`, capped at `u128::MAX`.
pub open spec fn sat_mul_u128(a: int, b: int) -> int {
    if a * b > u128::MAX { u128::MAX as int } else { a * b }
}

fn saturating_mul_u128(a: u128, b: u128) -> (r: u128)
    ensures
        r == sat_mul_u128(a as int, b as int),
{
    match a.checked_mul(b) {
        Some(p) => p,
        None => u128::MAX,
    }
}

fn saturating_sub_u128(a: u128, b: u128) -> (r: u128)
    ensures
        r == sat_sub_nat(a as int, b as int),
{
    if a >= b { a - b } else { 0 }
}

/// The fixed-point return of one day: `(curr - prev) * 10^7 / prev`.
pub open spec fn return_num(v: Seq<i128>, i: int) -> int {
    (v[i] - v[i - 1]) * FIXED_POINT_PRECISION
}

/// Daily return values of a series: one for each day whose previous value is not 0.
pub open spec fn daily_returns_of(v: Seq<i128>) -> Seq<i128>
    decreases v.len(),
{
    if v.len() < 2 {
        Seq::empty()
    } else {
        let rest = daily_returns_of(v.drop_last());
        let i = v.len() - 1;
        if v[i - 1] != 0 {
            rest.push(trunc_div(return_num(v, i), v[i - 1] as int) as i128)
        } else {
            rest
        }
    }
}

/// Every daily return of a series can be computed in 128 bits.
pub open spec fn returns_fit(v: Seq<i128>) -> bool {
    forall|i: int| 1 <= i < v.len() && v[i - 1] != 0 ==> i128::MIN < #[trigger] return_num(v, i) <= i128::MAX
}

/// Sum of a series.
pub open spec fn sum_i(s: Seq<i128>) -> int
    decreases s.len(),
{
    if s.len() == 0 { 0 } else { sum_i(s.drop_last()) + s.last() }
}

/// Mean of a series, rounded toward zero.
pub open spec fn mean_of(s: Seq<i128>) -> int {
    trunc_div(sum_i(s), s.len() as int)
}

/// Sum of squared deviations from `m`.
pub open spec fn sq_dev_sum(s: Seq<i128>, m: int) -> int
    decreases s.len(),
{
    if s.len() == 0 {
        0
    } else {
        sq_dev_sum(s.drop_last(), m) + (s.last() - m) * (s.last() - m)
    }
}

/// Variance of a series around its mean, rounded down.
pub open spec fn variance_of(s: Seq<i128>) -> int {
    sq_dev_sum(s, mean_of(s)) / s.len() as int
}

/// Volatility of a series: the floor square root of its variance (0 for an
/// empty series).
pub open spec fn volatility_of(s: Seq<i128>) -> int {
    if s.len() == 0 { 0 } else { floor_sqrt(variance_of(s)) }
}

/// Volatility of a series can be computed in 128 bits: running sums,
/// deviations, their squares and the sum of squares fit, and the variance
/// is below `u128::MAX`.
pub open spec fn volatility_fits(s: Seq<i128>) -> bool {
    s.len() == 0 || {
        let m = mean_of(s);
        &&& forall|k: int| 0 <= k <= s.len() ==> i128::MIN <= #[trigger] sum_i(s.take(k)) <= i128::MAX
        &&& forall|k: int| 0 <= k < s.len() ==> i128::MIN <= #[trigger] s[k] - m <= i128::MAX
        &&& forall|k: int| 0 <= k < s.len() ==> (#[trigger] s[k] - m) * (s[k] - m) <= i128::MAX
        &&& forall|k: int| 0 <= k <= s.len() ==> #[trigger] sq_dev_sum(s.take(k), m) <= u128::MAX
        &&& variance_of(s) < u128::MAX
    }
}

/// The negative elements of a series, in order.
pub open spec fn negatives_of(s: Seq<i128>) -> Seq<i128>
    decreases s.len(),
{
    if s.len() == 0 {
        Seq::empty()
    } else if s.last() < 0 {
        negatives_of(s.drop_last()).push(s.last())
    } else {
        negatives_of(s.drop_last())
    }
}

/// The value of a signed integer read as unsigned 128 bits.
pub open spec fn as_unsigned(a: int) -> int {
    if a >= 0 { a } else { a + 0x1_0000_0000_0000_0000_0000_0000_0000_0000 }
}

/// Running peak and largest drawdown so far of a non-empty series: a new
/// high becomes the peak; any other value is a drawdown
/// `(peak - value) * 10^7 / peak` from the peak.
pub open spec fn drawdown_state(v: Seq<i128>) -> (int, int)
    decreases v.len(),
{
    if v.len() <= 1 {
        (if v.len() == 1 { v[0] as int } else { 0 }, 0)
    } else {
        let (peak, worst) = drawdown_state(v.drop_last());
        let c = v.last() as int;
        if c > peak {
            (c, worst)
        } else {
            let dd = ((peak - c) * FIXED_POINT_PRECISION) / as_unsigned(peak);
            (peak, if dd > worst { dd } else { worst })
        }
    }
}

/// Largest drawdown of a series (0 when empty).
pub open spec fn max_drawdown_of(v: Seq<i128>) -> int {
    drawdown_state(v).1
}

/// Each drawdown of a series can be computed: the peak is not 0, and the
/// fall and its fixed-point product fit.
pub open spec fn drawdown_fits(v: Seq<i128>) -> bool
    decreases v.len(),
{
    if v.len() <= 1 {
        true
    } else {
        let peak = drawdown_state(v.drop_last()).0;
        let c = v.last() as int;
        &&& drawdown_fits(v.drop_last())
        &&& c <= peak ==> (peak != 0 && peak - c <= i128::MAX && (peak - c) * FIXED_POINT_PRECISION <= u128::MAX)
    }
}

/// Number of positive elements.
pub open spec fn wins_of(s: Seq<i128>) -> int
    decreases s.len(),
{
    if s.len() == 0 {
        0
    } else {
        wins_of(s.drop_last()) + if s.last() > 0 { 1int } else { 0int }
    }
}

/// Share of positive elements in fixed point (0 when empty).
pub open spec fn win_rate_of(s: Seq<i128>) -> int {
    if s.len() == 0 { 0 } else { (wins_of(s) * FIXED_POINT_PRECISION) / s.len() as int }
}

/// Sum of squared shares.
pub open spec fn herfindahl_of(a: Seq<(Asset, u128)>) -> int
    decreases a.len(),
{
    if a.len() == 0 { 0 } else { herfindahl_of(a.drop_last()) + a.last().1 * a.last().1 }
}

/// Diversification score: 0 for no assets, else 1.0 minus the Herfindahl
/// index (scaled back to fixed point, floored at 0), 1.0 when all shares are 0.
pub open spec fn diversification_of(a: Seq<(Asset, u128)>) -> int {
    if a.len() == 0 {
        0
    } else if herfindahl_of(a) > 0 {
        sat_sub_nat(FIXED_POINT_PRECISION as int, herfindahl_of(a) / FIXED_POINT_PRECISION as int)
    } else {
        FIXED_POINT_PRECISION as int
    }
}

/// Running time-weighted growth factor (fixed point) of a series: each day
/// whose previous value is positive multiplies it by `curr * 10^7 / prev`.
pub open spec fn twr_factor(v: Seq<i128>) -> int
    decreases v.len(),
{
    if v.len() < 2 {
        FIXED_POINT_ONE as int
    } else {
        let t = twr_factor(v.drop_last());
        let prev = v[v.len() - 2] as int;
        let curr = v.last() as int;
        if prev > 0 {
            trunc_div(t * trunc_div(curr * FIXED_POINT_PRECISION, prev), FIXED_POINT_PRECISION as int)
        } else {
            t
        }
    }
}

/// Each step of the time-weighted factor fits in 128 bits.
pub open spec fn twr_fits(v: Seq<i128>) -> bool
    decreases v.len(),
{
    if v.len() < 2 {
        true
    } else {
        let t = twr_factor(v.drop_last());
        let prev = v[v.len() - 2] as int;
        let curr = v.last() as int;
        &&& twr_fits(v.drop_last())
        &&& prev > 0 ==> (i128::MIN <= curr * FIXED_POINT_PRECISION <= i128::MAX
            && i128::MIN <= t * trunc_div(curr * FIXED_POINT_PRECISION, prev) <= i128::MAX)
    }
}

/// Time-weighted return: the growth factor minus 1.0 (0 for fewer than two values).
pub open spec fn twr_of(v: Seq<i128>) -> int {
    if v.len() < 2 { 0 } else { twr_factor(v) - FIXED_POINT_ONE }
}

/// A prefix of a series whose drawdowns fit also has drawdowns that fit.
proof fn lemma_drawdown_fits_prefix(v: Seq<i128>, k: int)
    requires
        drawdown_fits(v),
        0 <= k <= v.len(),
    ensures
        drawdown_fits(v.take(k)),
    decreases v.len(),
{
    if k == v.len() {
        assert(v.take(k) == v);
    } else {
        assert(v.drop_last().take(k) == v.take(k));
        lemma_drawdown_fits_prefix(v.drop_last(), k);
    }
}

/// A prefix of a series whose growth steps fit also has steps that fit.
proof fn lemma_twr_fits_prefix(v: Seq<i128>, k: int)
    requires
        twr_fits(v),
        0 <= k <= v.len(),
    ensures
        twr_fits(v.take(k)),
    decreases v.len(),
{
    if k == v.len() {
        assert(v.take(k) == v);
    } else {
        assert(v.drop_last().take(k) == v.take(k));
        lemma_twr_fits_prefix(v.drop_last(), k);
    }
}

/// Dates (days since the epoch) that a time window covers, ending today.
pub open spec fn window_range(time_window: TimeWindow, current_timestamp: u64) -> (u64, u64) {
    let d: int = current_timestamp as int / SECONDS_PER_DAY as int;
    let back = |n: int| if d >= n { (d - n) as u64 } else { 0u64 };
    match time_window {
        TimeWindow::Day1 => (back(1), d as u64),
        TimeWindow::Day7 => (back(7), d as u64),
        TimeWindow::Day30 => (back(30), d as u64),
        TimeWindow::YTD => ((d - d % 365) as u64, d as u64),
        TimeWindow::All => (back(90), d as u64),
    }
}

/// Ratio of excess return to a risk measure: the mean daily return
/// `total * 10^7 / days`, less the risk-free rate (floored at 0), times
/// 10^7 (saturating), over the risk measure; 0 when the risk is 0.
pub open spec fn risk_ratio(total_return: int, days: int, risk: int) -> int {
    if risk > 0 {
        sat_mul_u128(
            sat_sub_nat((total_return * FIXED_POINT_PRECISION) / days, RISK_FREE_RATE as int),
            FIXED_POINT_PRECISION as int,
        ) / risk
    } else {
        0
    }
}

/// Performance of a series of daily values.
pub open spec fn performance_of(v: Seq<i128>) -> PerformanceMetrics {
    if v.len() == 0 {
        PerformanceMetrics { sharpe_ratio: 0, sortino_ratio: 0, max_drawdown: 0, volatility: 0, total_return: 0, win_rate: 0 }
    } else {
        let r = daily_returns_of(v);
        let total = v.last() - v[0];
        let vol = volatility_of(r);
        let down = volatility_of(negatives_of(r));
        PerformanceMetrics {
            sharpe_ratio: risk_ratio(total, v.len() as int, vol) as u128,
            sortino_ratio: risk_ratio(total, v.len() as int, down) as u128,
            max_drawdown: max_drawdown_of(v) as u128,
            volatility: vol as u128,
            total_return: total as i128,
            win_rate: win_rate_of(r) as u128,
        }
    }
}

/// The performance of a series can be computed in 128 bits (where it
/// cannot, the computation would fail): return values, volatilities and drawdown
/// fit, the total return fits, and when a risk measure is positive the
/// total return is non-negative and its fixed-point product fits.
pub open spec fn performance_fits(v: Seq<i128>) -> bool {
    v.len() == 0 || {
        let r = daily_returns_of(v);
        let total = v.last() - v[0];
        &&& returns_fit(v)
        &&& i128::MIN <= total <= i128::MAX
        &&& volatility_fits(r)
        &&& volatility_fits(negatives_of(r))
        &&& drawdown_fits(v)
        &&& r.len() <= i32::MAX
        &&& (volatility_of(r) > 0 || volatility_of(negatives_of(r)) > 0) ==> (total >= 0 && total
            * FIXED_POINT_PRECISION <= u128::MAX)
    }
}

/// Returns over a period of daily values (all 0 when there are none).
pub open spec fn period_returns_of(v: Seq<i128>) -> PeriodReturns {
    if v.len() == 0 {
        PeriodReturns {
            time_weighted_return: 0,
            arithmetic_return: 0,
            geometric_return: 0,
            start_value: 0,
            end_value: 0,
            period_days: 0,
        }
    } else {
        PeriodReturns {
            time_weighted_return: twr_of(v) as i128,
            arithmetic_return: (v.last() - v[0]) as i128,
            geometric_return: twr_of(v) as i128,
            start_value: v[0],
            end_value: v.last(),
            period_days: v.len() as u32,
        }
    }
}

/// The time-weighted return of a series can be computed in 128 bits.
pub open spec fn twr_return_fits(v: Seq<i128>) -> bool {
    v.len() >= 2 ==> (twr_fits(v) && twr_factor(v) - FIXED_POINT_ONE >= i128::MIN)
}

/// Period return values of a series can be computed in 128 bits.
pub open spec fn period_fits(v: Seq<i128>) -> bool {
    v.len() > 0 ==> (i128::MIN <= v.last() - v[0] <= i128::MAX && twr_return_fits(v))
}

impl PortfolioAnalytics {
    /// Dates (days since the epoch) that a time window covers: the last 1,
    /// 7, 30 or 90 days (`All`), or the 365-day year so far (`YTD`).
    pub fn window_date_range(time_window: TimeWindow, current_timestamp: u64) -> (r: (u64, u64))
        ensures
            r == window_range(time_window, current_timestamp),
    {
        let d: u64 = current_timestamp / SECONDS_PER_DAY;
        match time_window {
            TimeWindow::Day1 => (if d >= 1 { d - 1 } else { 0 }, d),
            TimeWindow::Day7 => (if d >= 7 { d - 7 } else { 0 }, d),
            TimeWindow::Day30 => (if d >= 30 { d - 30 } else { 0 }, d),
            TimeWindow::YTD => (d - d % 365, d),
            TimeWindow::All => (if d >= 90 { d - 90 } else { 0 }, d),
        }
    }

    /// Daily return values in fixed point, `(curr - prev) * 10^7 / prev`, rounded
    /// toward zero, for each day whose previous value is not 0.
    pub fn calculate_daily_returns(values: &Vec<i128>) -> (r: Vec<i128>)
        requires
            returns_fit(values@),
        ensures
            r@ == daily_returns_of(values@),
    {
        let mut rets: Vec<i128> = Vec::new();
        if values.len() < 2 {
            return rets;
        }
        let mut i: usize = 1;
        assert(daily_returns_of(values@.take(1)) == Seq::<i128>::empty());
        while i < values.len()
            invariant
                1 <= i <= values.len(),
                returns_fit(values@),
                rets@ == daily_returns_of(values@.take(i as int)),
            decreases values.len() - i,
        {
            let ghost t = values@.take(i as int + 1);
            proof {
                assert(t.drop_last() == values@.take(i as int));
                assert(t[i as int] == values@[i as int] && t[i - 1] == values@[i - 1]);
                assert(return_num(t, i as int) == return_num(values@, i as int));
            }
            let prev = values[i - 1];
            let curr = values[i];
            if prev != 0 {
                proof {
                    assert(i128::MIN < return_num(values@, i as int) <= i128::MAX);
                }
                let diff: i128 = curr - prev;
                let num: i128 = diff * 10_000_000;
                let ret = div_trunc(num, prev);
                rets.push(ret);
            }
            i = i + 1;
        }
        proof {
            assert(values@.take(values@.len() as int) == values@);
        }
        rets
    }

    /// Last value minus first value (0 for no values).
    pub fn calculate_total_return(values: &Vec<i128>) -> (r: i128)
        requires
            values@.len() > 0 ==> i128::MIN <= values@.last() - values@[0] <= i128::MAX,
        ensures
            r == if values@.len() == 0 { 0 } else { values@.last() - values@[0] },
    {
        if values.len() == 0 {
            return 0;
        }
        let start = values[0];
        let end = values[values.len() - 1];
        end - start
    }

    /// Floor square root (Newton's iteration).
    pub fn sqrt_fixed_point(value: u128) -> (r: u128)
        requires
            value < u128::MAX,
        ensures
            is_floor_sqrt(value as int, r as int),
    {
        integer_sqrt(value)
    }

    /// Standard deviation of a series: floor square root of the mean
    /// squared deviation from the mean (0 for an empty series).
    pub fn calculate_volatility(rets: &Vec<i128>) -> (r: u128)
        requires
            volatility_fits(rets@),
        ensures
            r == volatility_of(rets@),
    {
        let n = rets.len();
        if n == 0 {
            return 0;
        }
        let mut sum: i128 = 0;
        let mut k: usize = 0;
        while k < n
            invariant
                n == rets.len(),
                n > 0,
                k <= n,
                volatility_fits(rets@),
                sum == sum_i(rets@.take(k as int)),
            decreases n - k,
        {
            proof {
                assert(rets@.take(k as int + 1).drop_last() == rets@.take(k as int));
                assert(i128::MIN <= sum_i(rets@.take(k as int + 1)) <= i128::MAX);
            }
            sum = sum + rets[k];
            k = k + 1;
        }
        proof {
            assert(rets@.take(n as int) == rets@);
        }
        let mean: i128 = div_trunc(sum, n as i128);
        let ghost m: int = mean as int;
        assert(m == mean_of(rets@));
        let mut acc: u128 = 0;
        let mut j: usize = 0;
        while j < n
            invariant
                n == rets.len(),
                n > 0,
                j <= n,
                volatility_fits(rets@),
                m == mean_of(rets@),
                mean as int == m,
                acc == sq_dev_sum(rets@.take(j as int), m),
            decreases n - j,
        {
            proof {
                assert(rets@.take(j as int + 1).drop_last() == rets@.take(j as int));
                assert(i128::MIN <= rets@[j as int] - m <= i128::MAX);
                assert((rets@[j as int] - m) * (rets@[j as int] - m) <= i128::MAX);
                assert(sq_dev_sum(rets@.take(j as int + 1), m) <= u128::MAX);
            }
            let diff: i128 = rets[j] - mean;
            assert(diff * diff >= 0) by (nonlinear_arith);
            let sq: i128 = diff * diff;
            acc = acc + (sq as u128);
            j = j + 1;
        }
        proof {
            assert(rets@.take(n as int) == rets@);
        }
        let variance: u128 = acc / (n as u128);
        let r = Self::sqrt_fixed_point(variance);
        proof {
            lemma_floor_sqrt_is(variance as int, r as int);
        }
        r
    }

    /// Volatility of the negative elements of a series.
    pub fn calculate_downside_volatility(rets: &Vec<i128>) -> (r: u128)
        requires
            volatility_fits(negatives_of(rets@)),
        ensures
            r == volatility_of(negatives_of(rets@)),
    {
        let mut negative: Vec<i128> = Vec::new();
        let mut i: usize = 0;
        while i < rets.len()
            invariant
                i <= rets.len(),
                negative@ == negatives_of(rets@.take(i as int)),
            decreases rets.len() - i,
        {
            proof {
                assert(rets@.take(i as int + 1).drop_last() == rets@.take(i as int));
            }
            if rets[i] < 0 {
                negative.push(rets[i]);
            }
            i = i + 1;
        }
        proof {
            assert(rets@.take(rets@.len() as int) == rets@);
        }
        Self::calculate_volatility(&negative)
    }

    /// Largest fall from a running peak, as a fixed-point fraction of the peak.
    pub fn calculate_max_drawdown(values: &Vec<i128>) -> (r: u128)
        requires
            drawdown_fits(values@),
        ensures
            r == max_drawdown_of(values@),
    {
        if values.len() == 0 {
            return 0;
        }
        let mut max_drawdown: u128 = 0;
        let mut peak: i128 = values[0];
        let mut i: usize = 1;
        while i < values.len()
            invariant
                1 <= i <= values.len(),
                drawdown_fits(values@),
                (peak as int, max_drawdown as int) == drawdown_state(values@.take(i as int)),
            decreases values.len() - i,
        {
            let ghost t = values@.take(i as int + 1);
            proof {
                assert(t.drop_last() == values@.take(i as int));
                lemma_drawdown_fits_prefix(values@, i as int + 1);
            }
            let current = values[i];
            if current > peak {
                peak = current;
            } else {
                let fall: i128 = peak - current;
                let num: u128 = (fall as u128) * 10_000_000;
                let div: u128 = if peak >= 0 { peak as u128 } else { u128::MAX - ((-(peak + 1)) as u128) };
                assert(div as int == as_unsigned(peak as int));
                let dd: u128 = num / div;
                if dd > max_drawdown {
                    max_drawdown = dd;
                }
            }
            i = i + 1;
        }
        proof {
            assert(values@.take(values@.len() as int) == values@);
        }
        max_drawdown
    }

    /// Share of positive elements, in fixed point (0 when empty).
    pub fn calculate_win_rate(rets: &Vec<i128>) -> (r: u128)
        requires
            rets@.len() <= i32::MAX,
        ensures
            r == win_rate_of(rets@),
    {
        if rets.len() == 0 {
            return 0;
        }
        let mut wins: u64 = 0;
        let mut i: usize = 0;
        while i < rets.len()
            invariant
                i <= rets.len(),
                rets@.len() <= i32::MAX,
                wins == wins_of(rets@.take(i as int)),
                wins <= i,
            decreases rets.len() - i,
        {
            proof {
                assert(rets@.take(i as int + 1).drop_last() == rets@.take(i as int));
            }
            if rets[i] > 0 {
                wins = wins + 1;
            }
            i = i + 1;
        }
        proof {
            assert(rets@.take(rets@.len() as int) == rets@);
        }
        ((wins as u128) * 10_000_000) / (rets.len() as u128)
    }

    /// 1.0 minus the Herfindahl index of the shares (0 for no assets, 1.0
    /// when all shares are 0).
    pub fn calculate_diversification_score(assets: &Vec<(Asset, u128)>) -> (r: u128)
        requires
            forall|k: int| 0 <= k <= assets@.len() ==> #[trigger] herfindahl_of(assets@.take(k)) <= u128::MAX,
        ensures
            r == diversification_of(assets@),
    {
        if assets.len() == 0 {
            return 0;
        }
        let mut h: u128 = 0;
        let mut i: usize = 0;
        while i < assets.len()
            invariant
                i <= assets.len(),
                forall|k: int| 0 <= k <= assets@.len() ==> #[trigger] herfindahl_of(assets@.take(k)) <= u128::MAX,
                h == herfindahl_of(assets@.take(i as int)),
            decreases assets.len() - i,
        {
            proof {
                assert(assets@.take(i as int + 1).drop_last() == assets@.take(i as int));
                assert(herfindahl_of(assets@.take(i as int + 1)) <= u128::MAX);
                assert(assets@[i as int].1 * assets@[i as int].1 >= 0) by (nonlinear_arith);
            }
            let p: u128 = assets[i].1;
            h = h + p * p;
            i = i + 1;
        }
        proof {
            assert(assets@.take(assets@.len() as int) == assets@);
        }
        if h > 0 {
            saturating_sub_u128(FIXED_POINT_PRECISION, h / FIXED_POINT_PRECISION)
        } else {
            FIXED_POINT_PRECISION
        }
    }

    /// Time-weighted return: the product of daily growth factors
    /// `curr * 10^7 / prev` (days with a positive previous value), minus 1.0.
    pub fn calculate_time_weighted_return(values: &Vec<i128>) -> (r: i128)
        requires
            twr_return_fits(values@),
        ensures
            r == twr_of(values@),
    {
        if values.len() < 2 {
            return 0;
        }
        let mut twr: i128 = 10_000_000;
        let mut i: usize = 1;
        while i < values.len()
            invariant
                1 <= i <= values.len(),
                twr_fits(values@),
                twr == twr_factor(values@.take(i as int)),
            decreases values.len() - i,
        {
            let ghost t = values@.take(i as int + 1);
            proof {
                assert(t.drop_last() == values@.take(i as int));
                lemma_twr_fits_prefix(values@, i as int + 1);
            }
            let prev = values[i - 1];
            let curr = values[i];
            if prev > 0 {
                let period_return = div_trunc(curr * 10_000_000, prev);
                twr = div_trunc(twr * period_return, 10_000_000);
            }
            i = i + 1;
        }
        proof {
            assert(values@.take(values@.len() as int) == values@);
        }
        twr - 10_000_000
    }

    /// Geometric return, taken as the time-weighted return.
    pub fn calculate_geometric_return(values: &Vec<i128>) -> (r: i128)
        requires
            twr_return_fits(values@),
        ensures
            r == twr_of(values@),
    {
        Self::calculate_time_weighted_return(values)
    }
}

/// Shares of two holdings in fixed point: none when the total is not
/// positive, else each balance times 10^7 over the total, rounded down.
pub open spec fn allocation_of(xlm_balance: i128, asset: TokenId, balance: i128) -> Seq<(Asset, u128)> {
    let total: int = xlm_balance + balance;
    if total > 0 {
        seq![
            (Asset::XLM, ((xlm_balance * FIXED_POINT_PRECISION) / total) as u128),
            (Asset::Custom(asset), ((balance * FIXED_POINT_PRECISION) / total) as u128),
        ]
    } else {
        Seq::empty()
    }
}

/// Shares of two holdings can be computed: the total fits, and when it is
/// positive each balance, read as unsigned, times 10^7 fits.
pub open spec fn allocation_fits(xlm_balance: i128, balance: i128) -> bool {
    &&& i128::MIN <= xlm_balance + balance <= i128::MAX
    &&& xlm_balance + balance > 0 ==> (as_unsigned(xlm_balance as int) * FIXED_POINT_PRECISION <= u128::MAX
        && as_unsigned(balance as int) * FIXED_POINT_PRECISION <= u128::MAX)
}

/// The benchmark comparison reported: no excess return, beta 1.0.
pub open spec fn neutral_comparison() -> BenchmarkComparison {
    BenchmarkComparison { alpha: 0, beta: FIXED_POINT_ONE, tracking_error: 0, information_ratio: 0 }
}

/// A share of a total is at most 1.0.
proof fn lemma_share_bounded(part: int, total: int)
    requires
        0 <= part <= total,
        total > 0,
    ensures
        0 <= (part * FIXED_POINT_PRECISION) / total <= FIXED_POINT_PRECISION,
{
    assert((part * 10_000_000) / total <= 10_000_000) by (nonlinear_arith)
        requires 0 <= part <= total, total > 0;
    assert((part * 10_000_000) / total >= 0) by (nonlinear_arith)
        requires 0 <= part, total > 0;
}

impl PortfolioAnalytics {
    /// Ratio of mean excess return to a risk measure (0 when the risk is 0).
    fn risk_adjusted(total_return: i128, days: u128, risk: u128) -> (r: u128)
        requires
            days > 0,
            risk > 0 ==> (total_return >= 0 && total_return * FIXED_POINT_PRECISION <= u128::MAX),
        ensures
            r == risk_ratio(total_return as int, days as int, risk as int),
    {
        if risk > 0 {
            let mean: u128 = (total_return as u128) * FIXED_POINT_PRECISION / days;
            saturating_mul_u128(saturating_sub_u128(mean, RISK_FREE_RATE), FIXED_POINT_PRECISION) / risk
        } else {
            0
        }
    }

    /// Performance of a series of daily values: Sharpe and Sortino ratios
    /// (against a 2% risk-free rate), largest drawdown, volatility of daily
    /// return values, total return and win rate; all 0 for no values.
    pub fn get_performance_metrics(daily_values: &Vec<i128>) -> (m: PerformanceMetrics)
        requires
            performance_fits(daily_values@),
        ensures
            m == performance_of(daily_values@),
    {
        if daily_values.len() == 0 {
            return PerformanceMetrics {
                sharpe_ratio: 0,
                sortino_ratio: 0,
                max_drawdown: 0,
                volatility: 0,
                total_return: 0,
                win_rate: 0,
            };
        }
        let rets = Self::calculate_daily_returns(daily_values);
        let total_return = Self::calculate_total_return(daily_values);
        let volatility = Self::calculate_volatility(&rets);
        let downside_volatility = Self::calculate_downside_volatility(&rets);
        let max_drawdown = Self::calculate_max_drawdown(daily_values);
        let win_rate = Self::calculate_win_rate(&rets);
        let days: u128 = daily_values.len() as u128;
        let sharpe_ratio = Self::risk_adjusted(total_return, days, volatility);
        let sortino_ratio = Self::risk_adjusted(total_return, days, downside_volatility);
        PerformanceMetrics { sharpe_ratio, sortino_ratio, max_drawdown, volatility, total_return, win_rate }
    }

    /// Comparison with a benchmark: no benchmark data is held, so the
    /// comparison is neutral whatever the values.
    pub fn get_benchmark_comparison(daily_values: &Vec<i128>) -> (c: BenchmarkComparison)
        ensures
            c == neutral_comparison(),
    {
        if daily_values.len() == 0 {
            return BenchmarkComparison { alpha: 0, beta: FIXED_POINT_ONE, tracking_error: 0, information_ratio: 0 };
        }
        let alpha: i128 = 0;
        let beta: u128 = FIXED_POINT_ONE;
        BenchmarkComparison { alpha, beta, tracking_error: 0, information_ratio: 0 }
    }

    /// Returns over a period of daily values: time-weighted, arithmetic
    /// (last minus first) and geometric return, first and last value and
    /// number of days; all 0 for no values.
    pub fn get_period_returns(daily_values: &Vec<i128>) -> (r: PeriodReturns)
        requires
            period_fits(daily_values@),
        ensures
            r == period_returns_of(daily_values@),
    {
        if daily_values.len() == 0 {
            return PeriodReturns {
                time_weighted_return: 0,
                arithmetic_return: 0,
                geometric_return: 0,
                start_value: 0,
                end_value: 0,
                period_days: 0,
            };
        }
        let start_value = daily_values[0];
        let end_value = daily_values[daily_values.len() - 1];
        let period_days: u32 = daily_values.len() as u32;
        let arithmetic_return: i128 = end_value - start_value;
        let time_weighted_return = Self::calculate_time_weighted_return(daily_values);
        let geometric_return = Self::calculate_geometric_return(daily_values);
        PeriodReturns { time_weighted_return, arithmetic_return, geometric_return, start_value, end_value, period_days }
    }

    /// Allocation between XLM and one other asset, from the two balances.
    pub fn get_asset_allocation(xlm_balance: i128, asset: TokenId, balance: i128) -> (a: AssetAllocation)
        requires
            allocation_fits(xlm_balance, balance),
        ensures
            a.assets@ == allocation_of(xlm_balance, asset, balance),
            a.correlations@.len() == 0,
            a.diversification_score == diversification_of(a.assets@),
    {
        let mut assets: Vec<(Asset, u128)> = Vec::new();
        let total_value: i128 = xlm_balance + balance;
        if total_value > 0 {
            proof {
                if xlm_balance < 0 {
                    assert(as_unsigned(xlm_balance as int) * FIXED_POINT_PRECISION > u128::MAX);
                }
                if balance < 0 {
                    assert(as_unsigned(balance as int) * FIXED_POINT_PRECISION > u128::MAX);
                }
                lemma_share_bounded(xlm_balance as int, total_value as int);
                lemma_share_bounded(balance as int, total_value as int);
            }
            let xlm_share: u128 = ((xlm_balance as u128) * FIXED_POINT_PRECISION) / (total_value as u128);
            let share: u128 = ((balance as u128) * FIXED_POINT_PRECISION) / (total_value as u128);
            assets.push((Asset::XLM, xlm_share));
            assets.push((Asset::Custom(asset), share));
            proof {
                assert(xlm_share * xlm_share <= 10_000_000 * 10_000_000) by (nonlinear_arith)
                    requires xlm_share <= 10_000_000;
                assert(share * share <= 10_000_000 * 10_000_000) by (nonlinear_arith)
                    requires share <= 10_000_000;
                assert(assets@.take(0) =~= Seq::<(Asset, u128)>::empty());
                assert(assets@.take(1).drop_last() =~= assets@.take(0));
                assert(assets@.take(2).drop_last() =~= assets@.take(1));
                assert(assets@.take(2) =~= assets@);
                let ghost h0 = herfindahl_of(assets@.take(0));
                let ghost h1 = herfindahl_of(assets@.take(1));
                let ghost h2 = herfindahl_of(assets@.take(2));
                assert(h0 == 0);
                assert(assets@.take(1).last() == (Asset::XLM, xlm_share));
                assert(h1 == h0 + xlm_share * xlm_share);
                assert(assets@.take(2).last() == (Asset::Custom(asset), share));
                assert(h2 == h1 + share * share);
                assert forall|k: int| 0 <= k <= assets@.len() implies #[trigger] herfindahl_of(assets@.take(k)) <= u128::MAX by {
                    if k == 0 {
                    } else if k == 1 {
                    } else {
                        assert(k == 2);
                    }
                }
            }
        } else {
            proof {
                assert(assets@.take(0) =~= Seq::<(Asset, u128)>::empty());
            }
        }
        let diversification_score = Self::calculate_diversification_score(&assets);
        AssetAllocation { assets, correlations: Vec::new(), diversification_score }
    }
}

/// The win rate is a share: between 0 and 1.0.
pub proof fn lemma_win_rate_is_share(s: Seq<i128>)
    ensures
        0 <= win_rate_of(s) <= FIXED_POINT_PRECISION,
{
    if s.len() > 0 {
        lemma_wins_bounded(s);
        let w = wins_of(s);
        let n = s.len() as int;
        assert((w * 10_000_000) / n <= 10_000_000) by (nonlinear_arith)
            requires 0 <= w <= n, n > 0;
        assert((w * 10_000_000) / n >= 0) by (nonlinear_arith)
            requires 0 <= w, n > 0;
    }
}

/// The number of positive elements is at most the length.
proof fn lemma_wins_bounded(s: Seq<i128>)
    ensures
        0 <= wins_of(s) <= s.len(),
    decreases s.len(),
{
    if s.len() > 0 {
        lemma_wins_bounded(s.drop_last());
    }
}

/// A series that never falls has no drawdown.
pub proof fn lemma_rising_series_no_drawdown(v: Seq<i128>)
    requires
        drawdown_fits(v),
        forall|i: int, j: int| 0 <= i < j < v.len() ==> v[i] <= v[j],
    ensures
        max_drawdown_of(v) == 0,
        v.len() > 0 ==> drawdown_state(v).0 == v.last(),
    decreases v.len(),
{
    if v.len() > 1 {
        let d = v.drop_last();
        assert forall|i: int, j: int| 0 <= i < j < d.len() implies d[i] <= d[j] by {
            assert(d[i] == v[i] && d[j] == v[j]);
        }
        lemma_rising_series_no_drawdown(d);
        assert(v[v.len() - 2] <= v.last());
        assert(d.last() == v[v.len() - 2]);
        let (peak, worst) = drawdown_state(d);
        if v.last() > peak {
        } else {
            assert(peak - v.last() == 0);
            assert(as_unsigned(peak) > 0);
            assert((0 * FIXED_POINT_PRECISION) / as_unsigned(peak) == 0);
        }
    }
}

/// The diversification score is at most 1.0.
pub proof fn lemma_diversification_at_most_one(a: Seq<(Asset, u128)>)
    ensures
        0 <= diversification_of(a) <= FIXED_POINT_PRECISION,
{
    if a.len() > 0 && herfindahl_of(a) > 0 {
        lemma_herfindahl_nonneg(a);
    }
}

proof fn lemma_herfindahl_nonneg(a: Seq<(Asset, u128)>)
    ensures
        herfindahl_of(a) >= 0,
    decreases a.len(),
{
    if a.len() > 0 {
        lemma_herfindahl_nonneg(a.drop_last());
        assert(a.last().1 * a.last().1 >= 0) by (nonlinear_arith);
    }
}

} // verus!
