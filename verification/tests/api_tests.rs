use portfolio::api::{
    fallback_warning, fetch_current_prices, get_mock_prices, quote_url, rounding_warning,
    GlobalQuote, LookupFailure, LookupOutcome, PriceFetch, PriceResolver, QuoteResponse,
};
use portfolio::decimal::Decimal;
use portfolio::portfolio::{Holding, Portfolio};
use portfolio::price_map::PriceMap;

fn dec(text: &str) -> Decimal {
    Decimal::parse(text).unwrap()
}

fn strings(items: &[&str]) -> Vec<String> {
    items.iter().map(|s| s.to_string()).collect()
}

fn quote(price: &str) -> QuoteResponse {
    QuoteResponse {
        global_quote: Some(GlobalQuote { price: price.to_string() }),
        error_message: None,
        note: None,
    }
}

/// Runs a fetch to its end as if the network could not be reached.
fn run_offline(mut fetch: PriceFetch) -> (PriceMap, Vec<String>) {
    let mut looked_up = Vec::new();
    while let Some(request) = fetch.pending() {
        looked_up.push(request.ticker.clone());
        let (next, _) = fetch.deliver(Err(LookupFailure::Unreachable));
        fetch = next;
    }
    assert!(fetch.is_finished());
    (fetch.into_prices(), looked_up)
}

fn price_of(prices: &PriceMap, ticker: &str) -> f64 {
    prices.get(ticker).unwrap().units() as f64 / 100_000_000.0
}

#[test]
fn known_price_table_holds_fifteen_symbols() {
    let table = get_mock_prices();
    assert_eq!(table.len(), 15);
    assert_eq!(price_of(&table, "AAPL"), 170.0);
    assert_eq!(price_of(&table, "TSLA"), 700.0);
    assert_eq!(price_of(&table, "GOOGL"), 2800.0);
    assert_eq!(price_of(&table, "MSFT"), 350.0);
    assert_eq!(price_of(&table, "AMZN"), 3200.0);
    assert_eq!(price_of(&table, "NVDA"), 450.0);
    assert_eq!(price_of(&table, "META"), 320.0);
    assert_eq!(price_of(&table, "BRK.B"), 325.0);
    assert_eq!(price_of(&table, "JPM"), 145.0);
    assert_eq!(price_of(&table, "V"), 240.0);
    assert_eq!(price_of(&table, "BTC-USD"), 95000.0);
    assert_eq!(price_of(&table, "ETH-USD"), 3800.0);
    assert_eq!(price_of(&table, "BNB-USD"), 680.0);
    assert_eq!(price_of(&table, "ADA-USD"), 1.2);
    assert_eq!(price_of(&table, "SOL-USD"), 180.0);
    assert!(!table.contains_key("aapl"));
    assert!(!table.contains_key("IBM"));
}

#[test]
fn standard_resolver_configuration() {
    let resolver = PriceResolver::standard();
    assert_eq!(resolver.api_key, "demo");
    assert_eq!(resolver.fallback.units(), 10_000_000_000);
    assert_eq!(resolver.known.len(), 15);
}

#[test]
fn quote_url_names_ticker_and_key() {
    assert_eq!(
        quote_url("IBM", "demo"),
        "https://www.alphavantage.co/query?function=GLOBAL_QUOTE&symbol=IBM&apikey=demo"
    );
    assert_eq!(
        quote_url("", ""),
        "https://www.alphavantage.co/query?function=GLOBAL_QUOTE&symbol=&apikey="
    );
}

#[test]
fn fallback_warning_names_the_ticker() {
    assert_eq!(
        fallback_warning("XYZ"),
        "Warning: Could not fetch price for XYZ, using default"
    );
}

#[test]
fn quote_price_is_parsed() {
    assert_eq!(quote("170.2500").price().unwrap().units(), 17_025_000_000);
    assert_eq!(quote("0").price().unwrap().units(), 0);
    assert_eq!(quote("20000000000").price().unwrap().units(), 2_000_000_000_000_000_000);
    assert_eq!(quote("0.00001").price().unwrap().units(), 1_000);
    let reading = quote("170.2500").reading().unwrap();
    assert_eq!(reading.value.units(), 17_025_000_000);
    assert!(reading.exact);
}

#[test]
fn quote_price_that_is_not_numeric() {
    match quote("n/a").price() {
        Err(LookupFailure::PriceNotNumeric(text)) => assert_eq!(text, "n/a"),
        other => panic!("unexpected: {:?}", other),
    }
    assert!(matches!(quote("").price(), Err(LookupFailure::PriceNotNumeric(_))));
    assert!(matches!(quote("nan").price(), Err(LookupFailure::PriceNotNumeric(_))));
    assert!(matches!(quote("1e").price(), Err(LookupFailure::PriceNotNumeric(_))));
}

#[test]
fn quote_price_in_exponent_notation() {
    assert_eq!(quote("1e3").price().unwrap().units(), 100_000_000_000);
    assert_eq!(quote("1.7025E2").price().unwrap().units(), 17_025_000_000);
    assert_eq!(quote("25e-1").price().unwrap().units(), 250_000_000);
    let tickers = strings(&["IBM"]);
    let (fetch, settlement) = fetch_current_prices(&tickers).deliver(Ok(quote("1e3")));
    assert!(settlement.failure.is_none());
    assert_eq!(price_of(&fetch.into_prices(), "IBM"), 1000.0);
}

#[test]
fn quote_price_with_more_than_eight_places_is_a_price_marked_as_rounded() {
    assert_eq!(quote("170.25009").price().unwrap().units(), 17_025_009_000);
    let reading = quote("170.250000009").reading().unwrap();
    assert_eq!(reading.value.units(), 17_025_000_000);
    assert!(!reading.exact);
    let tickers = strings(&["IBM"]);
    let (fetch, settlement) = fetch_current_prices(&tickers).deliver(Ok(quote("0.000000001")));
    assert!(settlement.failure.is_none());
    assert!(!settlement.exact);
    assert_eq!(settlement.price.units(), 0);
    assert_eq!(price_of(&fetch.into_prices(), "IBM"), 0.0);
    assert_eq!(
        rounding_warning("IBM"),
        "Warning: Price for IBM has more than eight decimal places, using the first eight"
    );
}

#[test]
fn quote_price_beyond_the_range() {
    match quote("99999999999").price() {
        Err(LookupFailure::PriceOutOfRange(text)) => assert_eq!(text, "99999999999"),
        other => panic!("unexpected: {:?}", other),
    }
    assert!(matches!(quote("1e11").price(), Err(LookupFailure::PriceOutOfRange(_))));
    let tickers = strings(&["IBM"]);
    let (_, settlement) = fetch_current_prices(&tickers).deliver(Ok(quote("1e11")));
    assert!(matches!(settlement.failure, Some(LookupFailure::PriceOutOfRange(_))));
    assert!(settlement.exact);
}

#[test]
fn error_message_counts_before_note_and_quote() {
    let response = QuoteResponse {
        global_quote: Some(GlobalQuote { price: "1.0".to_string() }),
        error_message: Some("Invalid API call".to_string()),
        note: Some("slow down".to_string()),
    };
    match response.price() {
        Err(LookupFailure::ProviderError(message)) => assert_eq!(message, "Invalid API call"),
        other => panic!("unexpected: {:?}", other),
    }
}

#[test]
fn note_counts_before_quote() {
    let response = QuoteResponse {
        global_quote: Some(GlobalQuote { price: "1.0".to_string() }),
        error_message: None,
        note: Some("slow down".to_string()),
    };
    match response.price() {
        Err(LookupFailure::ProviderNote(note)) => assert_eq!(note, "slow down"),
        other => panic!("unexpected: {:?}", other),
    }
}

#[test]
fn answer_without_quote_or_message() {
    let response = QuoteResponse { global_quote: None, error_message: None, note: None };
    assert!(matches!(response.price(), Err(LookupFailure::NoQuote)));
}

#[test]
fn known_tickers_need_no_lookup() {
    let tickers = strings(&["AAPL", "TSLA"]);
    let fetch = fetch_current_prices(&tickers);
    assert!(fetch.is_finished());
    assert!(fetch.pending().is_none());
    let prices = fetch.into_prices();
    assert_eq!(prices.len(), 2);
    assert_eq!(price_of(&prices, "AAPL"), 170.0);
    assert_eq!(price_of(&prices, "TSLA"), 700.0);
}

#[test]
fn known_ticker_keeps_table_price_whatever_the_network_says() {
    let tickers = strings(&["IBM", "AAPL", "IBM2"]);
    let mut fetch = fetch_current_prices(&tickers);
    let request = fetch.pending().unwrap();
    assert_eq!(request.ticker, "IBM");
    let (next, _) = fetch.deliver(Ok(quote("1.0")));
    fetch = next;
    let request = fetch.pending().unwrap();
    assert_eq!(request.ticker, "IBM2");
    let (next, _) = fetch.deliver(Err(LookupFailure::Unreachable));
    fetch = next;
    assert!(fetch.is_finished());
    let prices = fetch.into_prices();
    assert_eq!(price_of(&prices, "AAPL"), 170.0);
    assert_eq!(price_of(&prices, "IBM"), 1.0);
    assert_eq!(price_of(&prices, "IBM2"), 100.0);
}

#[test]
fn unknown_ticker_offline_gets_the_fallback() {
    let tickers = strings(&["UNKNOWN"]);
    let fetch = fetch_current_prices(&tickers);
    assert!(!fetch.is_finished());
    let (prices, looked_up) = run_offline(fetch);
    assert_eq!(looked_up, strings(&["UNKNOWN"]));
    assert_eq!(prices.len(), 1);
    assert_eq!(price_of(&prices, "UNKNOWN"), 100.0);
}

#[test]
fn pending_request_carries_the_url() {
    let tickers = strings(&["AAPL", "IBM"]);
    let fetch = fetch_current_prices(&tickers);
    let request = fetch.pending().unwrap();
    assert_eq!(request.ticker, "IBM");
    assert_eq!(
        request.url,
        "https://www.alphavantage.co/query?function=GLOBAL_QUOTE&symbol=IBM&apikey=demo"
    );
}

#[test]
fn live_quote_is_used_for_an_unknown_ticker() {
    let tickers = strings(&["IBM"]);
    let fetch = fetch_current_prices(&tickers);
    let (fetch, settlement) = fetch.deliver(Ok(quote("123.4500")));
    assert_eq!(settlement.ticker, "IBM");
    assert_eq!(settlement.price.units(), 12_345_000_000);
    assert!(settlement.failure.is_none());
    assert!(settlement.exact);
    assert!(fetch.is_finished());
    assert_eq!(price_of(&fetch.into_prices(), "IBM"), 123.45);
}

fn settle_single(outcome: LookupOutcome) -> (f64, Option<LookupFailure>) {
    let tickers = strings(&["IBM"]);
    let (fetch, settlement) = fetch_current_prices(&tickers).deliver(outcome);
    let prices = fetch.into_prices();
    assert_eq!(prices.len(), 1);
    assert_eq!(prices.get("IBM").unwrap().units(), settlement.price.units());
    (price_of(&prices, "IBM"), settlement.failure)
}

#[test]
fn every_kind_of_failure_gives_the_fallback() {
    let (price, failure) = settle_single(Err(LookupFailure::Unreachable));
    assert_eq!(price, 100.0);
    assert!(matches!(failure, Some(LookupFailure::Unreachable)));

    let (price, failure) = settle_single(Err(LookupFailure::Malformed));
    assert_eq!(price, 100.0);
    assert!(matches!(failure, Some(LookupFailure::Malformed)));

    let (price, failure) = settle_single(Ok(QuoteResponse {
        global_quote: None,
        error_message: Some("bad symbol".to_string()),
        note: None,
    }));
    assert_eq!(price, 100.0);
    assert!(matches!(failure, Some(LookupFailure::ProviderError(_))));

    let (price, failure) = settle_single(Ok(QuoteResponse {
        global_quote: None,
        error_message: None,
        note: Some("rate limit".to_string()),
    }));
    assert_eq!(price, 100.0);
    assert!(matches!(failure, Some(LookupFailure::ProviderNote(_))));

    let (price, failure) = settle_single(Ok(QuoteResponse {
        global_quote: None,
        error_message: None,
        note: None,
    }));
    assert_eq!(price, 100.0);
    assert!(matches!(failure, Some(LookupFailure::NoQuote)));

    let (price, failure) = settle_single(Ok(quote("abc")));
    assert_eq!(price, 100.0);
    assert!(matches!(failure, Some(LookupFailure::PriceNotNumeric(_))));

    let (price, failure) = settle_single(Ok(quote("1e12")));
    assert_eq!(price, 100.0);
    assert!(matches!(failure, Some(LookupFailure::PriceOutOfRange(_))));
}

#[test]
fn repeated_unknown_ticker_is_looked_up_each_time_and_keyed_once() {
    let tickers = strings(&["IBM", "AAPL", "IBM"]);
    let fetch = fetch_current_prices(&tickers);
    let (fetch, _) = fetch.deliver(Ok(quote("1.0")));
    assert_eq!(fetch.pending().unwrap().ticker, "IBM");
    let (fetch, _) = fetch.deliver(Ok(quote("2.0")));
    assert!(fetch.is_finished());
    let prices = fetch.into_prices();
    assert_eq!(prices.len(), 2);
    assert_eq!(price_of(&prices, "IBM"), 2.0);
    assert_eq!(price_of(&prices, "AAPL"), 170.0);
}

#[test]
fn repeated_known_ticker_is_keyed_once() {
    let tickers = strings(&["AAPL", "AAPL", "TSLA"]);
    let prices = fetch_current_prices(&tickers).into_prices();
    assert_eq!(prices.len(), 2);
}

#[test]
fn prices_so_far_cover_the_settled_tickers_only() {
    let tickers = strings(&["AAPL", "IBM", "TSLA"]);
    let prices = fetch_current_prices(&tickers).into_prices();
    assert_eq!(prices.len(), 1);
    assert!(prices.contains_key("AAPL"));
    assert!(!prices.contains_key("IBM"));
    assert!(!prices.contains_key("TSLA"));
}

#[test]
fn resolver_with_its_own_table_and_fallback() {
    let mut known = PriceMap::new();
    known.insert("ONE".to_string(), dec("1"));
    let resolver = PriceResolver { known, api_key: "secret".to_string(), fallback: dec("7.5") };
    let tickers = strings(&["ONE", "TWO", "AAPL"]);
    let fetch = resolver.start(&tickers);
    let request = fetch.pending().unwrap();
    assert_eq!(request.ticker, "TWO");
    assert_eq!(
        request.url,
        "https://www.alphavantage.co/query?function=GLOBAL_QUOTE&symbol=TWO&apikey=secret"
    );
    let (prices, looked_up) = run_offline(fetch);
    assert_eq!(looked_up, strings(&["TWO", "AAPL"]));
    assert_eq!(price_of(&prices, "ONE"), 1.0);
    assert_eq!(price_of(&prices, "TWO"), 7.5);
    assert_eq!(price_of(&prices, "AAPL"), 7.5);
}

#[test]
fn test_empty_portfolio() {
    let portfolio = Portfolio { holdings: Vec::new() };
    assert_eq!(portfolio.holdings.len(), 0);

    let tickers = portfolio.get_tickers();
    assert!(tickers.is_empty());

    let fetch = fetch_current_prices(&tickers);
    assert!(fetch.is_finished());
    let prices = fetch.into_prices();
    assert!(prices.is_empty());

    let holdings_with_prices = portfolio.holdings_with_prices(&prices);
    assert!(holdings_with_prices.is_empty());
}

#[test]
fn test_portfolio_loading_and_price_fetching() {
    let portfolio = Portfolio {
        holdings: vec![
            Holding {
                ticker: "AAPL".to_string(),
                quantity: dec("10.0"),
                cost_basis: dec("150.0"),
                date_purchased: "2023-01-01".to_string(),
            },
            Holding {
                ticker: "TSLA".to_string(),
                quantity: dec("5.0"),
                cost_basis: dec("200.0"),
                date_purchased: "2023-02-01".to_string(),
            },
        ],
    };
    assert_eq!(portfolio.holdings.len(), 2);

    let tickers = portfolio.get_tickers();
    let (prices, _) = run_offline(fetch_current_prices(&tickers));

    assert!(prices.contains_key("AAPL"));
    assert!(prices.contains_key("TSLA"));

    let holdings_with_prices = portfolio.holdings_with_prices(&prices);
    assert_eq!(holdings_with_prices.len(), 2);

    for holding_with_price in &holdings_with_prices {
        assert!(holding_with_price.current_price.units() > 0);
        assert!(holding_with_price.current_value().to_units().unwrap() > 0);
        assert!(holding_with_price.total_cost().to_units().unwrap() > 0);
    }
}

#[test]
fn test_portfolio_calculations() {
    let portfolio = Portfolio {
        holdings: vec![Holding {
            ticker: "AAPL".to_string(),
            quantity: dec("10.0"),
            cost_basis: dec("150.0"),
            date_purchased: "2023-01-01".to_string(),
        }],
    };
    let tickers = portfolio.get_tickers();
    let (prices, _) = run_offline(fetch_current_prices(&tickers));
    let holdings_with_prices = portfolio.holdings_with_prices(&prices);

    let holding_with_price = &holdings_with_prices[0];

    assert_eq!(holding_with_price.total_cost().to_units().unwrap() as f64 / 1e16, 1500.0);
    assert_eq!(holding_with_price.current_value().to_units().unwrap() as f64 / 1e16, 1700.0);
    assert_eq!(holding_with_price.gain_loss().to_units().unwrap() as f64 / 1e16, 200.0);

    let expected_percentage = (200.0 / 1500.0) * 100.0;
    let ratio = holding_with_price.gain_loss_percentage();
    let percentage =
        ratio.part.to_units().unwrap() as f64 / ratio.whole.to_units().unwrap() as f64 * 100.0;
    assert!((percentage - expected_percentage).abs() < 0.001);
}

#[test]
fn benchmark_portfolio_processing() {
    let mut holdings = Vec::new();
    let tickers = vec![
        "AAPL", "TSLA", "GOOGL", "MSFT", "AMZN", "NVDA", "META", "BRK.B", "JPM", "V",
    ];
    for (i, ticker) in tickers.iter().enumerate() {
        holdings.push(Holding {
            ticker: ticker.to_string(),
            quantity: dec(&format!("{}", 10.0 + i as f64)),
            cost_basis: dec(&format!("{}", 100.0 + i as f64 * 10.0)),
            date_purchased: format!("2023-{:02}-01", (i % 12) + 1),
        });
    }
    let portfolio = Portfolio { holdings };

    let tickers = portfolio.get_tickers();
    let (prices, looked_up) = run_offline(fetch_current_prices(&tickers));
    assert!(looked_up.is_empty());
    let holdings_with_prices = portfolio.holdings_with_prices(&prices);

    let total_value: i128 =
        holdings_with_prices.iter().map(|h| h.current_value().to_units().unwrap()).sum();
    let total_cost: i128 =
        holdings_with_prices.iter().map(|h| h.total_cost().to_units().unwrap()).sum();
    let total_gain_loss: i128 =
        holdings_with_prices.iter().map(|h| h.gain_loss().to_units().unwrap()).sum();

    assert_eq!(portfolio.holdings.len(), 10);
    assert_eq!(prices.len(), 10);
    assert_eq!(holdings_with_prices.len(), 10);
    assert!(total_value > 0);
    assert!(total_cost > 0);
    assert_eq!(total_gain_loss, total_value - total_cost);
}

fn resolve_standard(tickers: &[&str], live: &[Option<&str>]) -> PriceMap {
    let live: Vec<Option<Decimal>> = live.iter().map(|p| p.map(dec)).collect();
    PriceResolver::standard().resolve(&strings(tickers), &live)
}

#[test]
fn resolve_prices_known_tickers_from_the_table() {
    let prices = resolve_standard(&["AAPL", "TSLA"], &[]);
    assert_eq!(prices.len(), 2);
    assert_eq!(price_of(&prices, "AAPL"), 170.0);
    assert_eq!(price_of(&prices, "TSLA"), 700.0);
}

#[test]
fn resolve_keeps_the_table_price_whatever_the_lookups_brought() {
    for live in [
        vec![],
        vec![None],
        vec![Some("1.0")],
        vec![Some("1.0"), Some("2.0"), Some("3.0")],
        vec![None, None, None],
    ] {
        let prices = resolve_standard(&["IBM", "AAPL", "XYZ", "AAPL"], &live);
        assert_eq!(prices.len(), 3);
        assert_eq!(price_of(&prices, "AAPL"), 170.0);
    }
}

#[test]
fn resolve_gives_live_prices_in_order_of_request() {
    let prices = resolve_standard(&["IBM", "AAPL", "XYZ"], &[Some("1.5"), Some("2.5")]);
    assert_eq!(price_of(&prices, "IBM"), 1.5);
    assert_eq!(price_of(&prices, "AAPL"), 170.0);
    assert_eq!(price_of(&prices, "XYZ"), 2.5);
}

#[test]
fn resolve_gives_the_fallback_where_no_lookup_brought_a_price() {
    let prices = resolve_standard(&["AAPL", "IBM", "XYZ", "LAST"], &[None, Some("2.5")]);
    assert_eq!(price_of(&prices, "IBM"), 100.0);
    assert_eq!(price_of(&prices, "XYZ"), 2.5);
    assert_eq!(price_of(&prices, "LAST"), 100.0);

    let offline = resolve_standard(&["X", "AAPL", "Y", "Z"], &[None, None, None]);
    assert_eq!(price_of(&offline, "X"), 100.0);
    assert_eq!(price_of(&offline, "Y"), 100.0);
    assert_eq!(price_of(&offline, "Z"), 100.0);
    assert_eq!(price_of(&offline, "AAPL"), 170.0);
}

#[test]
fn resolve_of_nothing_is_empty() {
    assert!(resolve_standard(&[], &[Some("1")]).is_empty());
}

#[test]
fn resolve_takes_the_last_lookup_of_a_repeated_ticker() {
    let prices = resolve_standard(&["IBM", "IBM"], &[Some("1"), Some("2")]);
    assert_eq!(prices.len(), 1);
    assert_eq!(price_of(&prices, "IBM"), 2.0);
    let prices = resolve_standard(&["IBM", "IBM"], &[Some("1")]);
    assert_eq!(price_of(&prices, "IBM"), 100.0);
}

#[test]
fn resolve_agrees_with_the_stepwise_fetch() {
    let tickers = strings(&["IBM", "AAPL", "XYZ", "TSLA", "IBM"]);
    let mut fetch = fetch_current_prices(&tickers);
    let answers = [Some("3.25"), None, Some("1e2")];
    let mut next = 0;
    while fetch.pending().is_some() {
        let outcome = match answers[next] {
            Some(text) => Ok(quote(text)),
            None => Err(LookupFailure::Unreachable),
        };
        next += 1;
        let (after, _) = fetch.deliver(outcome);
        fetch = after;
    }
    assert_eq!(next, 3);
    let stepwise = fetch.into_prices();
    let at_once = resolve_standard(
        &["IBM", "AAPL", "XYZ", "TSLA", "IBM"],
        &[Some("3.25"), None, Some("100")],
    );
    assert_eq!(stepwise.len(), at_once.len());
    for ticker in ["IBM", "AAPL", "XYZ", "TSLA"] {
        assert_eq!(price_of(&stepwise, ticker), price_of(&at_once, ticker));
    }
    assert_eq!(price_of(&stepwise, "IBM"), 100.0);
    assert_eq!(price_of(&stepwise, "XYZ"), 100.0);
}
