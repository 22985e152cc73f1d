use swaptrade::analytics::{Asset, PortfolioAnalytics, TimeWindow};
use swaptrade::oracle::{
    anomalous_indices, get_price_safe, get_price_update_tolerance_bps, get_stored_price, price_delta_exceeds_tolerance,
    price_mean_variance, set_price_update_tolerance_bps, set_stored_price, ContractError, DecentralizedOracle,
    FeedProvider, PriceData, PriceStore,
};

#[test]
fn test_get_performance_metrics_empty_portfolio() {
    let metrics = PortfolioAnalytics::get_performance_metrics(&vec![]);
    assert_eq!(metrics.sharpe_ratio, 0);
    assert_eq!(metrics.sortino_ratio, 0);
    assert_eq!(metrics.max_drawdown, 0);
    assert_eq!(metrics.volatility, 0);
    assert_eq!(metrics.total_return, 0);
    assert_eq!(metrics.win_rate, 0);
}

#[test]
fn test_get_benchmark_comparison() {
    let comparison = PortfolioAnalytics::get_benchmark_comparison(&vec![]);
    assert_eq!(comparison.alpha, 0);
    assert_eq!(comparison.beta, 10_000_000);
    assert_eq!(comparison.tracking_error, 0);
    assert_eq!(comparison.information_ratio, 0);
}

#[test]
fn test_get_period_returns() {
    let returns = PortfolioAnalytics::get_period_returns(&vec![]);
    assert_eq!(returns.time_weighted_return, 0);
    assert_eq!(returns.arithmetic_return, 0);
    assert_eq!(returns.geometric_return, 0);
    assert_eq!(returns.start_value, 0);
    assert_eq!(returns.end_value, 0);
    assert_eq!(returns.period_days, 0);
}

#[test]
fn test_calculate_daily_returns() {
    let values = vec![100i128, 110, 95];
    let returns = PortfolioAnalytics::calculate_daily_returns(&values);
    assert_eq!(returns.len(), 2);
    assert_eq!(returns[0], 1_000_000);
    let expected_return_2 = ((95i128 - 110i128) * 10_000_000i128) / 110i128;
    assert_eq!(returns[1], expected_return_2);
}

#[test]
fn test_calculate_volatility() {
    let returns = vec![1_000_000i128, -500_000, 2_000_000];
    let volatility = PortfolioAnalytics::calculate_volatility(&returns);
    assert!(volatility > 0);
}

#[test]
fn test_calculate_max_drawdown() {
    let values = vec![100i128, 120, 90, 110];
    let max_drawdown = PortfolioAnalytics::calculate_max_drawdown(&values);
    let expected_drawdown = (30u128 * 10_000_000u128) / 120u128;
    assert_eq!(max_drawdown, expected_drawdown);
}

#[test]
fn test_calculate_win_rate() {
    let returns = vec![1_000_000i128, -500_000, 2_000_000, -1_000_000];
    assert_eq!(PortfolioAnalytics::calculate_win_rate(&returns), 5_000_000);
}

#[test]
fn volatility_exact_value() {
    // mean 833_333, squared deviations sum 1_166_666_666_667 (rounded), /3, floor sqrt
    let returns = vec![1_000_000i128, -500_000, 2_000_000];
    let mean: i128 = (1_000_000 - 500_000 + 2_000_000) / 3;
    let var: i128 = returns.iter().map(|r| (r - mean) * (r - mean)).sum::<i128>() / 3;
    let mut s: u128 = 0;
    while (s + 1) * (s + 1) <= var as u128 {
        s += 1;
    }
    assert_eq!(PortfolioAnalytics::calculate_volatility(&returns), s);
    assert_eq!(PortfolioAnalytics::calculate_volatility(&vec![]), 0);
}

#[test]
fn downside_volatility_uses_only_losses() {
    let returns = vec![5i128, -10, 7, -30];
    // negatives -10 and -30: mean -20, variance 100, volatility 10
    assert_eq!(PortfolioAnalytics::calculate_downside_volatility(&returns), 10);
    assert_eq!(PortfolioAnalytics::calculate_downside_volatility(&vec![1, 2]), 0);
}

#[test]
fn sqrt_fixed_point_floors() {
    assert_eq!(PortfolioAnalytics::sqrt_fixed_point(0), 0);
    assert_eq!(PortfolioAnalytics::sqrt_fixed_point(1), 1);
    assert_eq!(PortfolioAnalytics::sqrt_fixed_point(15), 3);
    assert_eq!(PortfolioAnalytics::sqrt_fixed_point(16), 4);
    assert_eq!(PortfolioAnalytics::sqrt_fixed_point(1_000_000_000_000), 1_000_000);
}

#[test]
fn total_and_time_weighted_return() {
    let values = vec![100i128, 110, 121];
    assert_eq!(PortfolioAnalytics::calculate_total_return(&values), 21);
    // growth 1.1 * 1.1 = 1.21 -> 0.21 in fixed point
    assert_eq!(PortfolioAnalytics::calculate_time_weighted_return(&values), 2_100_000);
    assert_eq!(PortfolioAnalytics::calculate_geometric_return(&values), 2_100_000);
    assert_eq!(PortfolioAnalytics::calculate_time_weighted_return(&vec![5]), 0);
    let period = PortfolioAnalytics::get_period_returns(&values);
    assert_eq!(period.arithmetic_return, 21);
    assert_eq!(period.start_value, 100);
    assert_eq!(period.end_value, 121);
    assert_eq!(period.period_days, 3);
    assert_eq!(period.time_weighted_return, 2_100_000);
}

#[test]
fn diversification_score_values() {
    let even = vec![(Asset::XLM, 5_000_000u128), (Asset::Custom(7), 5_000_000u128)];
    assert_eq!(PortfolioAnalytics::calculate_diversification_score(&even), 5_000_000);
    let single = vec![(Asset::XLM, 10_000_000u128)];
    assert_eq!(PortfolioAnalytics::calculate_diversification_score(&single), 0);
    let zero = vec![(Asset::XLM, 0u128)];
    assert_eq!(PortfolioAnalytics::calculate_diversification_score(&zero), 10_000_000);
    assert_eq!(PortfolioAnalytics::calculate_diversification_score(&vec![]), 0);
}

#[test]
fn asset_allocation_shares() {
    let a = PortfolioAnalytics::get_asset_allocation(1000, 7, 500);
    assert_eq!(a.assets.len(), 2);
    assert_eq!(a.assets[0], (Asset::XLM, 6_666_666));
    assert_eq!(a.assets[1], (Asset::Custom(7), 3_333_333));
    assert!(a.correlations.is_empty());
    let none = PortfolioAnalytics::get_asset_allocation(0, 7, 0);
    assert!(none.assets.is_empty());
    assert_eq!(none.diversification_score, 0);
}

#[test]
fn performance_metrics_values() {
    let values = vec![100i128, 120, 90, 110];
    let m = PortfolioAnalytics::get_performance_metrics(&values);
    assert_eq!(m.total_return, 10);
    assert_eq!(m.max_drawdown, 2_500_000);
    // returns: +0.2, -0.25, +0.2222222 -> 2 wins of 3
    assert_eq!(m.win_rate, 6_666_666);
    assert!(m.volatility > 0);
    // mean daily return 10 * 10^7 / 4 = 25_000_000, less 2_000_000, times 10^7, over volatility
    assert_eq!(m.sharpe_ratio, 23_000_000u128 * 10_000_000 / m.volatility);
}

#[test]
fn window_ranges() {
    let now = 400 * 86400 + 5;
    assert_eq!(PortfolioAnalytics::window_date_range(TimeWindow::Day1, now), (399, 400));
    assert_eq!(PortfolioAnalytics::window_date_range(TimeWindow::Day7, now), (393, 400));
    assert_eq!(PortfolioAnalytics::window_date_range(TimeWindow::Day30, now), (370, 400));
    assert_eq!(PortfolioAnalytics::window_date_range(TimeWindow::YTD, now), (365, 400));
    assert_eq!(PortfolioAnalytics::window_date_range(TimeWindow::All, now), (310, 400));
    assert_eq!(PortfolioAnalytics::window_date_range(TimeWindow::All, 86400), (0, 1));
}

// ---- oracle ----

const PAIR: (u64, u64) = (1, 2);

#[test]
fn first_price_is_stored_with_time() {
    let mut store = PriceStore::new();
    assert_eq!(get_price_safe(&store, PAIR), Err(ContractError::PriceNotSet));
    set_stored_price(&mut store, PAIR, 1_000_000, 50);
    assert_eq!(get_stored_price(&store, PAIR), Some(PriceData { price: 1_000_000, timestamp: 50 }));
    assert_eq!(get_price_safe(&store, PAIR), Ok(1_000_000));
    assert_eq!(get_stored_price(&store, (2, 1)), None);
}

#[test]
fn small_moves_are_ignored() {
    let mut store = PriceStore::new();
    set_stored_price(&mut store, PAIR, 1_000_000, 50);
    // default tolerance 10 bps: threshold 1_000
    set_stored_price(&mut store, PAIR, 1_001_000, 60);
    assert_eq!(get_stored_price(&store, PAIR), Some(PriceData { price: 1_000_000, timestamp: 50 }));
    set_stored_price(&mut store, PAIR, 1_001_001, 70);
    assert_eq!(get_stored_price(&store, PAIR), Some(PriceData { price: 1_001_001, timestamp: 70 }));
}

#[test]
fn tolerance_can_be_set_per_pair() {
    let mut store = PriceStore::new();
    assert_eq!(get_price_update_tolerance_bps(&store, PAIR), 10);
    set_price_update_tolerance_bps(&mut store, PAIR, 500);
    assert_eq!(get_price_update_tolerance_bps(&store, PAIR), 500);
    assert_eq!(get_price_update_tolerance_bps(&store, (3, 4)), 10);
    set_stored_price(&mut store, PAIR, 1000, 1);
    set_stored_price(&mut store, PAIR, 1040, 2);
    assert_eq!(get_price_safe(&store, PAIR), Ok(1000));
    set_stored_price(&mut store, PAIR, 1060, 3);
    assert_eq!(get_price_safe(&store, PAIR), Ok(1060));
}

#[test]
fn delta_tolerance_edges() {
    assert!(price_delta_exceeds_tolerance(0, 0, 10));
    assert!(!price_delta_exceeds_tolerance(10_000, 10_010, 10));
    assert!(price_delta_exceeds_tolerance(10_000, 10_011, 10));
    assert!(price_delta_exceeds_tolerance(10_000, 9_989, 10));
    assert!(!price_delta_exceeds_tolerance(u128::MAX, u128::MAX, 10_000));
    assert_eq!(ContractError::PriceNotSet.code(), 4);
    assert_eq!(ContractError::InvalidPrice.code(), 1);
}

fn oracle_with(prices: &[Option<u128>]) -> DecentralizedOracle {
    let mut o = DecentralizedOracle::new();
    for (i, p) in prices.iter().enumerate() {
        o.register_feed(FeedProvider::new());
        if let Some(p) = p {
            o.submit_price(i, PAIR, *p, 10);
        }
    }
    o
}

#[test]
fn consensus_is_upper_median() {
    let o = oracle_with(&[Some(300), None, Some(100), Some(200), Some(900)]);
    assert_eq!(o.feed_prices(PAIR), vec![300, 100, 200, 900]);
    assert_eq!(o.get_consensus_price(PAIR), Some(300));
    let o = oracle_with(&[Some(5), Some(1), Some(3)]);
    assert_eq!(o.get_consensus_price(PAIR), Some(3));
    assert_eq!(o.get_consensus_price((9, 9)), None);
    assert_eq!(oracle_with(&[]).get_consensus_price(PAIR), None);
}

#[test]
fn submit_to_missing_feed_is_ignored() {
    let mut o = oracle_with(&[Some(7)]);
    o.submit_price(3, PAIR, 99, 1);
    assert_eq!(o.get_consensus_price(PAIR), Some(7));
    o.submit_price(0, PAIR, 8, 2);
    assert_eq!(o.get_consensus_price(PAIR), Some(8));
}

#[test]
fn price_history_is_latest_per_feed() {
    let mut o = oracle_with(&[Some(1), Some(10)]);
    o.submit_price(0, PAIR, 2, 11);
    o.submit_price(0, PAIR, 3, 12);
    o.submit_price(0, (5, 5), 77, 12);
    assert_eq!(o.get_price_history(PAIR, 2), vec![2, 3, 10]);
    assert_eq!(o.get_price_history(PAIR, 10), vec![1, 2, 3, 10]);
    assert_eq!(o.get_price_history(PAIR, 0), Vec::<u128>::new());
}

#[test]
fn anomalies_beyond_five_deviations() {
    let prices = vec![100u128, 100, 100, 100, 100, 100, 100, 100, 100, 100, 100, 100, 100, 100, 100, 100, 100, 100, 100, 100, 100, 100, 100, 100, 100, 100, 100, 100, 100, 10_000];
    let (mean, var) = price_mean_variance(&prices).unwrap();
    assert_eq!(mean, (29 * 100 + 10_000) / 30);
    let std_dev = (var as f64).sqrt() as u128;
    assert_eq!(anomalous_indices(&prices, mean, std_dev), vec![29]);
    assert_eq!(anomalous_indices(&prices, 100, 10), vec![29]);
    assert_eq!(price_mean_variance(&vec![]), None);
    assert_eq!(price_mean_variance(&vec![u128::MAX]), None);
    assert_eq!(price_mean_variance(&vec![2, 4]), Some((3, 1)));
}

#[test]
fn rising_series_has_no_drawdown_and_share_bounds() {
    assert_eq!(PortfolioAnalytics::calculate_max_drawdown(&vec![5i128, 5, 7, 100]), 0);
    assert_eq!(PortfolioAnalytics::calculate_win_rate(&vec![1i128, 2, 3]), 10_000_000);
    assert_eq!(PortfolioAnalytics::calculate_win_rate(&vec![-1i128, 0]), 0);
    let concentrated = vec![(Asset::XLM, 9_000_000u128), (Asset::Custom(1), 1_000_000u128)];
    let score = PortfolioAnalytics::calculate_diversification_score(&concentrated);
    assert_eq!(score, 10_000_000 - (81_000_000_000_000 + 1_000_000_000_000) / 10_000_000);
    assert!(score <= 10_000_000);
}
