use offline_bitcoin_atm::mempool::{
    blocks_until_halving, moscow_time, parse_block_height, DifficultyFigures, DisplayItems,
    Endpoint, FeesResponse, FetchAction, FetchRound, MempoolData, MempoolQuery,
    MempoolStatsResponse, OrangeClockConfig, PriceCurrency, PricesResponse, QueryOutcome,
};
use offline_bitcoin_atm::mempool::query_url;

#[test]
fn test_blocks_until_halving() {
    // First halving at 210,000
    assert_eq!(blocks_until_halving(0), 210_000);
    assert_eq!(blocks_until_halving(1), 209_999);
    assert_eq!(blocks_until_halving(209_999), 1);

    // Second halving at 420,000
    assert_eq!(blocks_until_halving(210_000), 210_000);
    assert_eq!(blocks_until_halving(210_001), 209_999);

    // Near current height (~890,000, 5th epoch)
    assert_eq!(blocks_until_halving(890_000), 160_000);
    assert_eq!(blocks_until_halving(840_000), 210_000);
    assert_eq!(blocks_until_halving(840_001), 209_999);
}

#[test]
fn test_moscow_time() {
    assert_eq!(moscow_time(100_000), 1_000); // $100k → 1000 sats/$
    assert_eq!(moscow_time(50_000), 2_000); // $50k → 2000 sats/$
    assert_eq!(moscow_time(1), 100_000_000); // $1 → 1 BTC worth of sats
    assert_eq!(moscow_time(0), 0); // edge case: zero price
}

#[test]
fn test_display_items_roundtrip() {
    let items = DisplayItems {
        block_height: true,
        price: true,
        moscow_time: false,
        fees: true,
        halving_countdown: false,
        difficulty_adjustment: true,
        mempool_size: false,
    };

    let s = items.to_items_string();
    assert!(s.contains("height"));
    assert!(s.contains("price"));
    assert!(!s.contains("moscow"));
    assert!(s.contains("fees"));
    assert!(s.contains("difficulty"));

    let parsed = DisplayItems::from_items_string(&s);
    assert_eq!(parsed.block_height, true);
    assert_eq!(parsed.price, true);
    assert_eq!(parsed.moscow_time, false);
    assert_eq!(parsed.fees, true);
    assert_eq!(parsed.halving_countdown, false);
    assert_eq!(parsed.difficulty_adjustment, true);
    assert_eq!(parsed.mempool_size, false);
}

#[test]
fn test_price_currency_roundtrip() {
    assert_eq!(PriceCurrency::from_str("USD"), PriceCurrency::USD);
    assert_eq!(PriceCurrency::from_str("EUR"), PriceCurrency::EUR);
    assert_eq!(PriceCurrency::from_str("unknown"), PriceCurrency::USD);
    assert_eq!(PriceCurrency::USD.as_str(), "USD");
    assert_eq!(PriceCurrency::EUR.as_str(), "EUR");
}

#[test]
fn test_display_items_needs() {
    let items = DisplayItems {
        block_height: true,
        price: false,
        moscow_time: false,
        fees: false,
        halving_countdown: false,
        difficulty_adjustment: false,
        mempool_size: false,
    };
    assert!(items.needs_block_height());
    assert!(!items.needs_prices());

    let items2 = DisplayItems {
        block_height: false,
        price: false,
        moscow_time: true,
        fees: false,
        halving_countdown: true,
        difficulty_adjustment: false,
        mempool_size: false,
    };
    assert!(items2.needs_block_height()); // halving needs block height
    assert!(items2.needs_prices()); // moscow time needs prices
}

fn all_items() -> DisplayItems {
    DisplayItems {
        block_height: true,
        price: true,
        moscow_time: true,
        fees: true,
        halving_countdown: true,
        difficulty_adjustment: true,
        mempool_size: true,
    }
}

#[test]
fn items_string_exact_forms() {
    assert_eq!(all_items().to_items_string(), "height,price,moscow,fees,halving,difficulty,mempool");
    assert_eq!(DisplayItems::default_items().to_items_string(), "height,price,fees");
    let none = DisplayItems::from_items_string("");
    assert_eq!(none.to_items_string(), "");
}

#[test]
fn items_parse_trims_and_matches_exactly() {
    let d = DisplayItems::from_items_string(" height ,pricey,\tfees\n,,mempool");
    assert!(d.block_height);
    assert!(!d.price);
    assert!(d.fees);
    assert!(d.mempool_size);
    assert!(!d.moscow_time);
    assert!(!d.halving_countdown);
    assert!(!d.difficulty_adjustment);
}

#[test]
fn items_roundtrip_all_combinations() {
    for bits in 0u32..128 {
        let d = DisplayItems {
            block_height: bits & 1 != 0,
            price: bits & 2 != 0,
            moscow_time: bits & 4 != 0,
            fees: bits & 8 != 0,
            halving_countdown: bits & 16 != 0,
            difficulty_adjustment: bits & 32 != 0,
            mempool_size: bits & 64 != 0,
        };
        let p = DisplayItems::from_items_string(&d.to_items_string());
        assert_eq!(
            (p.block_height, p.price, p.moscow_time, p.fees, p.halving_countdown,
             p.difficulty_adjustment, p.mempool_size),
            (d.block_height, d.price, d.moscow_time, d.fees, d.halving_countdown,
             d.difficulty_adjustment, d.mempool_size)
        );
    }
}

#[test]
fn currency_code_roundtrip() {
    for c in [PriceCurrency::USD, PriceCurrency::EUR] {
        assert_eq!(PriceCurrency::from_str(c.as_str()), c);
    }
    assert_eq!(PriceCurrency::from_str("eur"), PriceCurrency::USD);
}

#[test]
fn halving_lands_on_multiple() {
    for h in [0u64, 1, 209_999, 210_000, 630_000, 899_999, 1_000_000] {
        let b = blocks_until_halving(h);
        assert!(b >= 1 && b <= 210_000);
        assert_eq!((h + b) % 210_000, 0);
    }
}

#[test]
fn block_height_body_parsing() {
    assert_eq!(parse_block_height("890123"), Some(890123));
    assert_eq!(parse_block_height("  890123\n"), Some(890123));
    assert_eq!(parse_block_height("+7"), Some(7));
    assert_eq!(parse_block_height("007"), Some(7));
    assert_eq!(parse_block_height(""), None);
    assert_eq!(parse_block_height("+"), None);
    assert_eq!(parse_block_height("-1"), None);
    assert_eq!(parse_block_height("12a"), None);
    assert_eq!(parse_block_height("18446744073709551615"), Some(u64::MAX));
    assert_eq!(parse_block_height("18446744073709551616"), None);
    for s in ["1 2", "0x10", " +12 ", "99999999999999999999"] {
        assert_eq!(parse_block_height(s), s.trim().parse::<u64>().ok());
    }
}

#[test]
fn mempool_data_emptiness() {
    let d = MempoolData::default();
    assert!(d.is_empty());
    let d2 = MempoolData { mempool_count: Some(3), ..MempoolData::default() };
    assert!(!d2.is_empty());
    assert_eq!(PriceCurrency::EUR.price_from(&MempoolData { price_eur: Some(9), ..MempoolData::default() }), Some(9));
    assert_eq!(PriceCurrency::USD.price_from(&MempoolData { price_eur: Some(9), ..MempoolData::default() }), None);
}

#[test]
fn fetch_round_asks_needed_with_fallback() {
    let items = DisplayItems {
        block_height: false,
        price: false,
        moscow_time: true,
        fees: false,
        halving_countdown: true,
        difficulty_adjustment: false,
        mempool_size: true,
    };
    let mut r = FetchRound::new(&items);
    assert_eq!(r.next_action(), FetchAction::Request(MempoolQuery::BlockHeight, Endpoint::Primary));
    r.record(QueryOutcome::BlockHeight(None));
    assert_eq!(r.next_action(), FetchAction::Request(MempoolQuery::BlockHeight, Endpoint::Fallback));
    r.record(QueryOutcome::BlockHeight(Some(890_000)));
    assert_eq!(r.next_action(), FetchAction::Request(MempoolQuery::Prices, Endpoint::Primary));
    r.record(QueryOutcome::Prices(Some(PricesResponse { usd: 87000, eur: 82000 })));
    assert_eq!(r.next_action(), FetchAction::Request(MempoolQuery::MempoolStats, Endpoint::Primary));
    r.record(QueryOutcome::MempoolStats(None));
    assert_eq!(r.next_action(), FetchAction::Request(MempoolQuery::MempoolStats, Endpoint::Fallback));
    r.record(QueryOutcome::MempoolStats(None));
    assert_eq!(r.next_action(), FetchAction::Done);
    let d = r.into_data();
    assert_eq!(d.block_height, Some(890_000));
    assert_eq!(d.price_usd, Some(87000));
    assert_eq!(d.price_eur, Some(82000));
    assert_eq!(d.mempool_count, None);
    assert_eq!(d.fee_fastest, None);
}

#[test]
fn fetch_round_fills_every_figure() {
    let mut r = FetchRound::new(&all_items());
    r.record(QueryOutcome::BlockHeight(Some(1)));
    r.record(QueryOutcome::Prices(Some(PricesResponse { usd: 2, eur: 3 })));
    r.record(QueryOutcome::Fees(Some(FeesResponse { fastest_fee: 5, half_hour_fee: 3, hour_fee: 2 })));
    assert_eq!(r.next_action(), FetchAction::Request(MempoolQuery::Difficulty, Endpoint::Primary));
    r.record(QueryOutcome::Difficulty(Some(DifficultyFigures {
        progress_percent: 45.23f32.to_bits(),
        difficulty_change: (-1.52f32).to_bits(),
    })));
    r.record(QueryOutcome::MempoolStats(Some(MempoolStatsResponse { count: 18900 })));
    assert_eq!(r.next_action(), FetchAction::Done);
    let d = r.data_ref().clone();
    assert_eq!(d.fee_fastest, Some(5));
    assert_eq!(d.fee_half_hour, Some(3));
    assert_eq!(d.fee_hour, Some(2));
    assert_eq!(f32::from_bits(d.difficulty_progress.unwrap()), 45.23f32);
    assert_eq!(d.mempool_count, Some(18900));
    assert!(!d.is_empty());
}

#[test]
fn fetch_round_without_items_is_done_at_once() {
    let none = DisplayItems::from_items_string("");
    let r = FetchRound::new(&none);
    assert_eq!(r.next_action(), FetchAction::Done);
    assert!(r.into_data().is_empty());
}

#[test]
fn query_paths() {
    assert_eq!(MempoolQuery::BlockHeight.path(), "/api/blocks/tip/height");
    assert_eq!(MempoolQuery::Prices.path(), "/api/v1/prices");
    assert_eq!(MempoolQuery::Fees.path(), "/api/v1/fees/recommended");
    assert_eq!(MempoolQuery::Difficulty.path(), "/api/v1/difficulty-adjustment");
    assert_eq!(MempoolQuery::MempoolStats.path(), "/api/mempool");
}

#[test]
fn request_urls() {
    let c = OrangeClockConfig::from_stored("home".to_string(), None, None, None, None);
    assert_eq!(
        query_url(&c, Endpoint::Primary, MempoolQuery::BlockHeight),
        "https://mempool.space/api/blocks/tip/height"
    );
    assert_eq!(
        query_url(&c, Endpoint::Fallback, MempoolQuery::Prices),
        "https://mempool.emzy.de/api/v1/prices"
    );
    let own = OrangeClockConfig::from_stored(
        "home".to_string(),
        None,
        Some("node.local:8080".to_string()),
        None,
        None,
    );
    assert_eq!(
        query_url(&own, Endpoint::Primary, MempoolQuery::Difficulty),
        "https://node.local:8080/api/v1/difficulty-adjustment"
    );
    assert_eq!(
        query_url(&own, Endpoint::Primary, MempoolQuery::Fees),
        "https://node.local:8080/api/v1/fees/recommended"
    );
    assert_eq!(
        query_url(&own, Endpoint::Fallback, MempoolQuery::MempoolStats),
        "https://mempool.emzy.de/api/mempool"
    );
}

#[test]
fn difficulty_figures_compare_as_floats() {
    let with = |p: f32, c: f32| MempoolData {
        difficulty_progress: Some(p.to_bits()),
        difficulty_change: Some(c.to_bits()),
        ..MempoolData::default()
    };
    assert!(with(45.2, -1.5) == with(45.2, -1.5));
    assert!(with(45.2, -1.5) != with(45.3, -1.5));
    // +0 and -0 are equal as floats, though their bits differ.
    assert!(with(0.0, 1.0) == with(-0.0, 1.0));
    // A NaN equals nothing, not even itself.
    assert!(with(f32::NAN, 1.0) != with(f32::NAN, 1.0));
    assert!(MempoolData::default() == MempoolData::default());
    assert!(with(1.0, 1.0) != MempoolData::default());
    let mut d = with(1.0, 1.0);
    assert!(d == d.clone());
    d.block_height = Some(7);
    assert!(d != with(1.0, 1.0));
}
