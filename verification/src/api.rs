//! Price resolution: a table of known prices first, then a live quote, then
//! a fallback price.
//!
//! The library decides; it does not talk to the network. A `PriceFetch`
//! names the ticker whose quote is wanted next, and is handed what the
//! lookup brought back.

use crate::decimal::Decimal;
use crate::price_map::PriceMap;
use crate::text::{decimal_reading, texts, ReadError, Reading};
use vstd::prelude::*;
use vstd::string::StringExecFns;

verus! {

/// The price given to a ticker that no source has a price for: one hundred.
pub const FALLBACK_PRICE_UNITS: i64 = 10_000_000_000;

/// The prices that are known without asking, in `Decimal` units: ten
/// equities and five crypto pairs.
pub open spec fn known_prices() -> Map<Seq<char>, int> {
    Map::<Seq<char>, int>::empty().insert("AAPL"@, 17_000_000_000).insert("TSLA"@, 70_000_000_000).insert(
        "GOOGL"@,
        280_000_000_000,
    ).insert("MSFT"@, 35_000_000_000).insert("AMZN"@, 320_000_000_000).insert("NVDA"@, 45_000_000_000).insert(
        "META"@,
        32_000_000_000,
    ).insert("BRK.B"@, 32_500_000_000).insert("JPM"@, 14_500_000_000).insert("V"@, 24_000_000_000).insert(
        "BTC-USD"@,
        9_500_000_000_000,
    ).insert("ETH-USD"@, 380_000_000_000).insert("BNB-USD"@, 68_000_000_000).insert(
        "ADA-USD"@,
        120_000_000,
    ).insert("SOL-USD"@, 18_000_000_000)
}

/// The table of known prices.
pub fn get_mock_prices() -> (prices: PriceMap)
    ensures
        prices@ == known_prices(),
{
    let mut prices = PriceMap::new();
    prices.insert(String::from_str("AAPL"), Decimal::from_units(17_000_000_000));
    prices.insert(String::from_str("TSLA"), Decimal::from_units(70_000_000_000));
    prices.insert(String::from_str("GOOGL"), Decimal::from_units(280_000_000_000));
    prices.insert(String::from_str("MSFT"), Decimal::from_units(35_000_000_000));
    prices.insert(String::from_str("AMZN"), Decimal::from_units(320_000_000_000));
    prices.insert(String::from_str("NVDA"), Decimal::from_units(45_000_000_000));
    prices.insert(String::from_str("META"), Decimal::from_units(32_000_000_000));
    prices.insert(String::from_str("BRK.B"), Decimal::from_units(32_500_000_000));
    prices.insert(String::from_str("JPM"), Decimal::from_units(14_500_000_000));
    prices.insert(String::from_str("V"), Decimal::from_units(24_000_000_000));
    prices.insert(String::from_str("BTC-USD"), Decimal::from_units(9_500_000_000_000));
    prices.insert(String::from_str("ETH-USD"), Decimal::from_units(380_000_000_000));
    prices.insert(String::from_str("BNB-USD"), Decimal::from_units(68_000_000_000));
    prices.insert(String::from_str("ADA-USD"), Decimal::from_units(120_000_000));
    prices.insert(String::from_str("SOL-USD"), Decimal::from_units(18_000_000_000));
    prices
}

/// The address at which the quote for `ticker` is asked with the key
/// `api_key`.
pub open spec fn quote_url_text(ticker: Seq<char>, api_key: Seq<char>) -> Seq<char> {
    "https://www.alphavantage.co/query?function=GLOBAL_QUOTE&symbol="@ + ticker + "&apikey="@
        + api_key
}

/// The address at which the quote for `ticker` is asked with the key
/// `api_key`.
pub fn quote_url(ticker: &str, api_key: &str) -> (url: String)
    ensures
        url@ == quote_url_text(ticker@, api_key@),
{
    let mut url = String::from_str(
        "https://www.alphavantage.co/query?function=GLOBAL_QUOTE&symbol=",
    );
    url.append(ticker);
    url.append("&apikey=");
    url.append(api_key);
    url
}

/// The text of the warning that `ticker` was given the fallback price.
pub open spec fn fallback_warning_text(ticker: Seq<char>) -> Seq<char> {
    "Warning: Could not fetch price for "@ + ticker + ", using default"@
}

/// The warning that `ticker` was given the fallback price.
pub fn fallback_warning(ticker: &str) -> (warning: String)
    ensures
        warning@ == fallback_warning_text(ticker@),
{
    let mut warning = String::from_str("Warning: Could not fetch price for ");
    warning.append(ticker);
    warning.append(", using default");
    warning
}

/// The quote inside an answer of the quote service.
#[derive(Debug)]
pub struct GlobalQuote {
    /// The price, as the service wrote it.
    pub price: String,
}

/// An answer of the quote service: a quote, an error message or a note.
#[derive(Debug)]
pub struct QuoteResponse {
    pub global_quote: Option<GlobalQuote>,
    pub error_message: Option<String>,
    pub note: Option<String>,
}

/// Why a live lookup brought no price.
#[derive(Debug)]
pub enum LookupFailure {
    /// The request could not be made or was not answered.
    Unreachable,
    /// The answer was not in the form of a `QuoteResponse`.
    Malformed,
    /// The service answered with an error message.
    ProviderError(String),
    /// The service answered with a note, as it does when asked too often.
    ProviderNote(String),
    /// The answer held neither quote nor message.
    NoQuote,
    /// The quote's price is not a number.
    PriceNotNumeric(String),
    /// The quote's price is a number beyond the largest `Decimal`.
    PriceOutOfRange(String),
}

/// What an answer says of the price: its hundred-millionths and whether
/// they are the quoted number exactly. An error message counts before a
/// note, and a note before a quote. A quote gives a price exactly when its
/// price text is a number, in plain or exponent notation, that a `Decimal`
/// can hold; digits past the eighth fractional place are dropped, and the
/// reading then says that it is not exact.
pub open spec fn quoted_reading(response: QuoteResponse) -> Result<(int, bool), LookupFailure> {
    if let Some(message) = response.error_message {
        Err(LookupFailure::ProviderError(message))
    } else if let Some(note) = response.note {
        Err(LookupFailure::ProviderNote(note))
    } else if let Some(quote) = response.global_quote {
        match decimal_reading(quote.price@) {
            Ok(reading) => Ok(reading),
            Err(ReadError::Malformed) => Err(LookupFailure::PriceNotNumeric(quote.price)),
            Err(ReadError::TooLarge) => Err(LookupFailure::PriceOutOfRange(quote.price)),
        }
    } else {
        Err(LookupFailure::NoQuote)
    }
}

/// What an answer says of the price, in `Decimal` units.
pub open spec fn quoted_price(response: QuoteResponse) -> Result<int, LookupFailure> {
    match quoted_reading(response) {
        Ok((units, _)) => Ok(units),
        Err(failure) => Err(failure),
    }
}

impl QuoteResponse {
    /// The price that this answer quotes and whether it is the quoted
    /// number exactly, or why the answer quotes none.
    pub fn reading(&self) -> (result: Result<Reading, LookupFailure>)
        ensures
            match (result, quoted_reading(*self)) {
                (Ok(reading), Ok((units, exact))) => reading.value@ == units && reading.exact
                    == exact,
                (Err(failure), Err(expected)) => failure == expected,
                _ => false,
            },
    {
        if let Some(message) = &self.error_message {
            return Err(LookupFailure::ProviderError(message.clone()));
        }
        if let Some(note) = &self.note {
            return Err(LookupFailure::ProviderNote(note.clone()));
        }
        if let Some(quote) = &self.global_quote {
            match Decimal::read(quote.price.as_str()) {
                Ok(reading) => Ok(reading),
                Err(ReadError::Malformed) => Err(
                    LookupFailure::PriceNotNumeric(quote.price.clone()),
                ),
                Err(ReadError::TooLarge) => Err(
                    LookupFailure::PriceOutOfRange(quote.price.clone()),
                ),
            }
        } else {
            Err(LookupFailure::NoQuote)
        }
    }

    /// The price that this answer quotes, or why it quotes none.
    pub fn price(&self) -> (result: Result<Decimal, LookupFailure>)
        ensures
            match (result, quoted_price(*self)) {
                (Ok(price), Ok(units)) => price@ == units,
                (Err(failure), Err(expected)) => failure == expected,
                _ => false,
            },
    {
        match self.reading() {
            Ok(reading) => Ok(reading.value),
            Err(failure) => Err(failure),
        }
    }
}

/// Whether what a live lookup brought is given to the ticker as it stands:
/// not so only for a quote whose price has digits that were dropped.
pub open spec fn outcome_is_exact(outcome: LookupOutcome) -> bool {
    match outcome {
        Ok(response) => match quoted_reading(response) {
            Ok((_, exact)) => exact,
            Err(_) => true,
        },
        Err(_) => true,
    }
}

/// The text of the warning that the price quoted for `ticker` had digits
/// dropped.
pub open spec fn rounding_warning_text(ticker: Seq<char>) -> Seq<char> {
    "Warning: Price for "@ + ticker + " has more than eight decimal places, using the first eight"@
}

/// The warning that the price quoted for `ticker` had digits dropped.
pub fn rounding_warning(ticker: &str) -> (warning: String)
    ensures
        warning@ == rounding_warning_text(ticker@),
{
    let mut warning = String::from_str("Warning: Price for ");
    warning.append(ticker);
    warning.append(" has more than eight decimal places, using the first eight");
    warning
}

/// What a live lookup brought back: an answer of the service, or why there
/// is none.
pub type LookupOutcome = Result<QuoteResponse, LookupFailure>;

/// The price that a live lookup brought, in `Decimal` units, or why it
/// brought none.
pub open spec fn live_price(outcome: LookupOutcome) -> Result<int, LookupFailure> {
    match outcome {
        Ok(response) => quoted_price(response),
        Err(failure) => Err(failure),
    }
}

/// The price given to a ticker after a live lookup: the price the lookup
/// brought, or `fallback` if it brought none.
pub open spec fn settled_price(outcome: LookupOutcome, fallback: int) -> int {
    match live_price(outcome) {
        Ok(units) => units,
        Err(_) => fallback,
    }
}

/// The state reached from position `from` with prices `prices` by giving
/// each requested ticker its table price, up to the first ticker that the
/// table does not hold: the position of that ticker, or the number of
/// tickers if there is none, and the prices given by then.
pub open spec fn settle_known(
    table: Map<Seq<char>, int>,
    requested: Seq<Seq<char>>,
    from: int,
    prices: Map<Seq<char>, int>,
) -> (int, Map<Seq<char>, int>)
    decreases requested.len() - from,
{
    if 0 <= from < requested.len() && table.contains_key(requested[from]) {
        settle_known(
            table,
            requested,
            from + 1,
            prices.insert(requested[from], table[requested[from]]),
        )
    } else {
        (from, prices)
    }
}

/// What prices are resolved with: the table of known prices, the key for
/// the quote service and the fallback price.
pub struct PriceResolver {
    pub known: PriceMap,
    pub api_key: String,
    pub fallback: Decimal,
}

/// A live lookup to make: the ticker and the address to ask at.
#[derive(Debug)]
pub struct LookupRequest {
    pub ticker: String,
    pub url: String,
}

/// How one ticker's live lookup was settled.
#[derive(Debug)]
pub struct Settlement {
    /// The ticker that was looked up.
    pub ticker: String,
    /// The price it was given.
    pub price: Decimal,
    /// Whether the price is what the lookup brought or the fallback as it
    /// stands: `false` where digits of a quoted price were dropped.
    pub exact: bool,
    /// Why the lookup brought no price, where the fallback was given.
    pub failure: Option<LookupFailure>,
}

/// The resolution of prices for a list of tickers, in progress. It rests
/// either at a ticker that needs a live lookup or at the end of the list.
pub struct PriceFetch {
    resolver: PriceResolver,
    tickers: Vec<String>,
    next: usize,
    prices: PriceMap,
}

/// The first `n + 1` elements of a sequence are its first `n` and the one
/// after them.
proof fn lemma_take_to_set_step(s: Seq<Seq<char>>, n: int)
    requires
        0 <= n < s.len(),
    ensures
        s.take(n + 1).to_set() == s.take(n).to_set().insert(s[n]),
{
    let shorter = s.take(n);
    let longer = s.take(n + 1);
    assert forall|t: Seq<char>| longer.to_set().contains(t) == shorter.to_set().insert(
        s[n],
    ).contains(t) by {
        if longer.contains(t) {
            let i = longer.index_of(t);
            if i < n {
                assert(shorter[i] == t);
            }
        }
        if shorter.contains(t) {
            let i = shorter.index_of(t);
            assert(longer[i] == t);
        }
        if t == s[n] {
            assert(longer[n] == t);
        }
    }
    assert(longer.to_set() =~= shorter.to_set().insert(s[n]));
}

/// What giving table prices keeps and reaches. From a state in which the
/// tickers before `from`, and no others, have a price, and each of them that
/// the table holds has its table price, `settle_known` reaches a state of
/// which the same is true at the new position; the new position rests at a
/// ticker that the table does not hold or at the end of the list; and no
/// ticker that the table does not hold has its price changed.
pub proof fn lemma_settle_known(
    table: Map<Seq<char>, int>,
    requested: Seq<Seq<char>>,
    from: int,
    prices: Map<Seq<char>, int>,
)
    requires
        0 <= from <= requested.len(),
        prices.dom() == requested.take(from).to_set(),
        forall|t: Seq<char>|
            prices.contains_key(t) && table.contains_key(t) ==> prices[t] == table[t],
    ensures
        ({
            let (position, settled) = settle_known(table, requested, from, prices);
            &&& from <= position <= requested.len()
            &&& position < requested.len() ==> !table.contains_key(requested[position])
            &&& settled.dom() == requested.take(position).to_set()
            &&& forall|t: Seq<char>|
                settled.contains_key(t) && table.contains_key(t) ==> settled[t] == table[t]
            &&& forall|t: Seq<char>|
                prices.contains_key(t) && !table.contains_key(t) ==> settled.contains_key(t)
                    && settled[t] == prices[t]
        }),
    decreases requested.len() - from,
{
    if from < requested.len() && table.contains_key(requested[from]) {
        lemma_take_to_set_step(requested, from);
        lemma_settle_known(
            table,
            requested,
            from + 1,
            prices.insert(requested[from], table[requested[from]]),
        );
    }
}

/// Gives each ticker from position `from` on its table price, up to the
/// first that the table does not hold.
fn absorb_known(known: &PriceMap, tickers: &Vec<String>, from: usize, prices: PriceMap) -> (result:
    (usize, PriceMap))
    requires
        from <= tickers.len(),
    ensures
        (result.0 as int, result.1@) == settle_known(
            known@,
            texts(tickers@),
            from as int,
            prices@,
        ),
{
    let ghost requested = texts(tickers@);
    let ghost goal = settle_known(known@, requested, from as int, prices@);
    let mut prices = prices;
    let mut next = from;
    while next < tickers.len()
        invariant
            from <= next <= tickers.len(),
            requested == texts(tickers@),
            settle_known(known@, requested, next as int, prices@) == goal,
        ensures
            next <= tickers.len(),
            (next as int, prices@) == goal,
        decreases tickers.len() - next,
    {
        assert(requested[next as int] == tickers[next as int]@);
        match known.get(tickers[next].as_str()) {
            Some(price) => {
                prices.insert(tickers[next].clone(), price);
                next += 1;
            },
            None => {
                break ;
            },
        }
    }
    (next, prices)
}

impl PriceResolver {
    /// The resolver with the table of known prices, the demonstration key
    /// and a fallback price of one hundred.
    pub fn standard() -> (resolver: PriceResolver)
        ensures
            resolver.known@ == known_prices(),
            resolver.api_key@ == "demo"@,
            resolver.fallback@ == FALLBACK_PRICE_UNITS,
    {
        PriceResolver {
            known: get_mock_prices(),
            api_key: String::from_str("demo"),
            fallback: Decimal::from_units(FALLBACK_PRICE_UNITS),
        }
    }

    /// Begins to resolve the prices of `tickers`: every ticker before the
    /// first that the table does not hold has its table price.
    pub fn start(self, tickers: &[String]) -> (fetch: PriceFetch)
        ensures
            fetch.table() == self.known@,
            fetch.api_key() == self.api_key@,
            fetch.fallback() == self.fallback@,
            fetch.requested() == texts(tickers@),
            (fetch.position(), fetch.prices()) == settle_known(
                self.known@,
                texts(tickers@),
                0,
                Map::<Seq<char>, int>::empty(),
            ),
            fetch.consistent(),
            forall|live: Seq<Option<int>>|
                resolved_prices(self.known@, self.fallback@, texts(tickers@), live)
                    == #[trigger] resolved_prices_from(
                    fetch.table(),
                    fetch.fallback(),
                    fetch.requested(),
                    fetch.position(),
                    fetch.prices(),
                    live,
                ),
    {
        let mut owned: Vec<String> = Vec::new();
        let mut i: usize = 0;
        while i < tickers.len()
            invariant
                i <= tickers.len(),
                owned.len() == i,
                forall|j: int| 0 <= j < i ==> owned[j]@ == tickers[j]@,
            decreases tickers.len() - i,
        {
            owned.push(tickers[i].clone());
            i += 1;
        }
        assert(texts(owned@) =~= texts(tickers@));
        proof {
            assert(texts(owned@).take(0).to_set() =~= Set::<Seq<char>>::empty());
            lemma_settle_known(self.known@, texts(owned@), 0, Map::<Seq<char>, int>::empty());
            assert forall|live: Seq<Option<int>>|
                resolved_prices(self.known@, self.fallback@, texts(tickers@), live)
                    == #[trigger] resolved_prices_from(
                    self.known@,
                    self.fallback@,
                    texts(tickers@),
                    settle_known(
                        self.known@,
                        texts(tickers@),
                        0,
                        Map::<Seq<char>, int>::empty(),
                    ).0,
                    settle_known(
                        self.known@,
                        texts(tickers@),
                        0,
                        Map::<Seq<char>, int>::empty(),
                    ).1,
                    live,
                ) by {
                lemma_settle_known_resolves(
                    self.known@,
                    self.fallback@,
                    texts(tickers@),
                    0,
                    Map::<Seq<char>, int>::empty(),
                    live,
                );
            }
        }
        let (next, prices) = absorb_known(&self.known, &owned, 0, PriceMap::new());
        PriceFetch { resolver: self, tickers: owned, next, prices }
    }
}

impl PriceFetch {
    /// The tickers whose prices were asked for, in order.
    pub closed spec fn requested(&self) -> Seq<Seq<char>> {
        texts(self.tickers@)
    }

    /// How many of the requested tickers, from the first on, have a price.
    pub closed spec fn position(&self) -> int {
        self.next as int
    }

    /// The prices given so far, in `Decimal` units.
    pub closed spec fn prices(&self) -> Map<Seq<char>, int> {
        self.prices@
    }

    /// The table of known prices, in `Decimal` units.
    pub closed spec fn table(&self) -> Map<Seq<char>, int> {
        self.resolver.known@
    }

    /// The key for the quote service.
    pub closed spec fn api_key(&self) -> Seq<char> {
        self.resolver.api_key@
    }

    /// The fallback price, in `Decimal` units.
    pub closed spec fn fallback(&self) -> int {
        self.resolver.fallback@
    }

    /// The position is within the list and rests at a ticker that the table
    /// does not hold; the tickers before it, and no others, have a price;
    /// and each of them that the table holds has its table price, whatever
    /// any lookup brought back.
    #[verifier::type_invariant]
    pub open spec fn consistent(self) -> bool {
        &&& 0 <= self.position() <= self.requested().len()
        &&& self.position() < self.requested().len() ==> !self.table().contains_key(
            self.requested()[self.position()],
        )
        &&& self.prices().dom() == self.requested().take(self.position()).to_set()
        &&& forall|t: Seq<char>|
            self.prices().contains_key(t) && self.table().contains_key(t) ==> self.prices()[t]
                == self.table()[t]
    }

    /// Whether every requested ticker has a price.
    pub fn is_finished(&self) -> (result: bool)
        ensures
            result == (self.position() == self.requested().len()),
            0 <= self.position() <= self.requested().len(),
    {
        proof {
            use_type_invariant(self);
        }
        self.next == self.tickers.len()
    }

    /// The live lookup to make next: that of the first ticker without a
    /// price. `None` when every ticker has one.
    pub fn pending(&self) -> (result: Option<LookupRequest>)
        ensures
            0 <= self.position() <= self.requested().len(),
            result is Some <==> self.position() < self.requested().len(),
            result matches Some(request) ==> {
                &&& request.ticker@ == self.requested()[self.position()]
                &&& request.url@ == quote_url_text(request.ticker@, self.api_key())
                &&& !self.table().contains_key(request.ticker@)
            },
    {
        proof {
            use_type_invariant(self);
        }
        if self.next < self.tickers.len() {
            let ticker = self.tickers[self.next].clone();
            assert(texts(self.tickers@)[self.next as int] == ticker@);
            let url = quote_url(ticker.as_str(), self.resolver.api_key.as_str());
            Some(LookupRequest { ticker, url })
        } else {
            None
        }
    }

    /// Settles the pending lookup with what it brought back: the ticker is
    /// given the price that the answer quotes, or the fallback price if the
    /// lookup failed in any way. The tickers after it that the table holds
    /// are then given their table prices, up to the next that it does not
    /// hold.
    pub fn deliver(self, outcome: LookupOutcome) -> (result: (PriceFetch, Settlement))
        requires
            self.position() < self.requested().len(),
        ensures
            result.0.table() == self.table(),
            result.0.api_key() == self.api_key(),
            result.0.fallback() == self.fallback(),
            result.0.requested() == self.requested(),
            (result.0.position(), result.0.prices()) == settle_known(
                self.table(),
                self.requested(),
                self.position() + 1,
                self.prices().insert(
                    self.requested()[self.position()],
                    settled_price(outcome, self.fallback()),
                ),
            ),
            result.0.consistent(),
            forall|rest: Seq<Option<int>>|
                resolved_prices_from(
                    self.table(),
                    self.fallback(),
                    self.requested(),
                    self.position(),
                    self.prices(),
                    seq![brought(outcome)] + rest,
                ) == #[trigger] resolved_prices_from(
                    result.0.table(),
                    result.0.fallback(),
                    result.0.requested(),
                    result.0.position(),
                    result.0.prices(),
                    rest,
                ),
            result.0.prices().contains_key(result.1.ticker@),
            result.0.prices()[result.1.ticker@] == result.1.price@,
            result.1.ticker@ == self.requested()[self.position()],
            result.1.price@ == settled_price(outcome, self.fallback()),
            result.1.exact == outcome_is_exact(outcome),
            match live_price(outcome) {
                Ok(units) => result.1.failure is None && result.1.price@ == units,
                Err(failure) => result.1.failure == Some(failure) && result.1.price@
                    == self.fallback(),
            },
    {
        proof {
            use_type_invariant(&self);
        }
        let PriceFetch { resolver, tickers, next, prices } = self;
        let mut prices = prices;
        let ghost requested = texts(tickers@);
        assert(next < tickers.len());
        assert(requested[next as int] == tickers[next as int]@);
        let live = match outcome {
            Ok(response) => response.reading(),
            Err(failure) => Err(failure),
        };
        let (price, exact, failure) = match live {
            Ok(reading) => (reading.value, reading.exact, None),
            Err(failure) => (resolver.fallback, true, Some(failure)),
        };
        let ticker = tickers[next].clone();
        let ghost before = prices@;
        prices.insert(tickers[next].clone(), price);
        proof {
            lemma_take_to_set_step(requested, next as int);
            lemma_settle_known(resolver.known@, requested, next + 1, prices@);
            assert(prices@.contains_key(ticker@));
            let after = settle_known(resolver.known@, requested, next + 1, prices@);
            assert forall|rest: Seq<Option<int>>|
                resolved_prices_from(
                    resolver.known@,
                    resolver.fallback@,
                    requested,
                    next as int,
                    before,
                    seq![brought(outcome)] + rest,
                ) == #[trigger] resolved_prices_from(
                    resolver.known@,
                    resolver.fallback@,
                    requested,
                    after.0,
                    after.1,
                    rest,
                ) by {
                lemma_delivery_resolves(
                    resolver.known@,
                    resolver.fallback@,
                    requested,
                    next as int,
                    before,
                    brought(outcome),
                    rest,
                );
            }
        }
        let (next, prices) = absorb_known(&resolver.known, &tickers, next + 1, prices);
        (PriceFetch { resolver, tickers, next, prices }, Settlement { ticker, price, exact, failure })
    }

    /// The prices given so far. Once every requested ticker has a price,
    /// these are the prices of exactly the requested tickers, each ticker
    /// that the table holds has its table price, and resolution has nothing
    /// left to add.
    pub fn into_prices(self) -> (prices: PriceMap)
        ensures
            prices@ == self.prices(),
            prices@.dom() == self.requested().take(self.position()).to_set(),
            self.position() == self.requested().len() ==> prices@.dom()
                == self.requested().to_set(),
            forall|t: Seq<char>|
                prices@.contains_key(t) && self.table().contains_key(t) ==> prices@[t]
                    == self.table()[t],
            self.position() == self.requested().len() ==> forall|live: Seq<Option<int>>|
                #[trigger] resolved_prices_from(
                    self.table(),
                    self.fallback(),
                    self.requested(),
                    self.position(),
                    self.prices(),
                    live,
                ) == prices@,
    {
        proof {
            use_type_invariant(&self);
            assert(self.requested().take(self.requested().len() as int) =~= self.requested());
        }
        self.prices
    }
}

/// The price of every ticker from position `from` on, added to `prices`:
/// its table price if the table holds it; else what the next live lookup
/// brought; else, where that lookup brought nothing or none was made, the
/// fallback price. `live` lists what the lookups brought, one for each
/// ticker that the table does not hold, in order of request.
pub open spec fn resolved_prices_from(
    table: Map<Seq<char>, int>,
    fallback: int,
    requested: Seq<Seq<char>>,
    from: int,
    prices: Map<Seq<char>, int>,
    live: Seq<Option<int>>,
) -> Map<Seq<char>, int>
    decreases requested.len() - from,
{
    if from < 0 || from >= requested.len() {
        prices
    } else if table.contains_key(requested[from]) {
        resolved_prices_from(
            table,
            fallback,
            requested,
            from + 1,
            prices.insert(requested[from], table[requested[from]]),
            live,
        )
    } else if live.len() > 0 {
        resolved_prices_from(
            table,
            fallback,
            requested,
            from + 1,
            prices.insert(
                requested[from],
                match live[0] {
                    Some(price) => price,
                    None => fallback,
                },
            ),
            live.skip(1),
        )
    } else {
        resolved_prices_from(
            table,
            fallback,
            requested,
            from + 1,
            prices.insert(requested[from], fallback),
            live,
        )
    }
}

/// The prices that the requested tickers resolve to, given what the live
/// lookups brought.
pub open spec fn resolved_prices(
    table: Map<Seq<char>, int>,
    fallback: int,
    requested: Seq<Seq<char>>,
    live: Seq<Option<int>>,
) -> Map<Seq<char>, int> {
    resolved_prices_from(table, fallback, requested, 0, Map::<Seq<char>, int>::empty(), live)
}

/// What each live lookup brought, in `Decimal` units.
pub open spec fn live_units(live: Seq<Option<Decimal>>) -> Seq<Option<int>> {
    live.map_values(
        |price: Option<Decimal>|
            match price {
                Some(price) => Some(price@),
                None => None,
            },
    )
}

/// Resolution from a position on prices every ticker from there on and
/// keeps what the tickers before it were given, unless they are requested
/// again; and it keeps to the table.
pub proof fn lemma_resolved_prices_from(
    table: Map<Seq<char>, int>,
    fallback: int,
    requested: Seq<Seq<char>>,
    from: int,
    prices: Map<Seq<char>, int>,
    live: Seq<Option<int>>,
)
    requires
        0 <= from <= requested.len(),
        prices.dom() == requested.take(from).to_set(),
        forall|t: Seq<char>|
            prices.contains_key(t) && table.contains_key(t) ==> prices[t] == table[t],
    ensures
        ({
            let resolved = resolved_prices_from(table, fallback, requested, from, prices, live);
            &&& resolved.dom() == requested.to_set()
            &&& forall|t: Seq<char>|
                resolved.contains_key(t) && table.contains_key(t) ==> resolved[t] == table[t]
        }),
    decreases requested.len() - from,
{
    if from < requested.len() {
        lemma_take_to_set_step(requested, from);
        let t = requested[from];
        if table.contains_key(t) {
            lemma_resolved_prices_from(
                table,
                fallback,
                requested,
                from + 1,
                prices.insert(t, table[t]),
                live,
            );
        } else if live.len() > 0 {
            let price = match live[0] {
                Some(price) => price,
                None => fallback,
            };
            lemma_resolved_prices_from(
                table,
                fallback,
                requested,
                from + 1,
                prices.insert(t, price),
                live.skip(1),
            );
        } else {
            lemma_resolved_prices_from(
                table,
                fallback,
                requested,
                from + 1,
                prices.insert(t, fallback),
                live,
            );
        }
    } else {
        assert(requested.take(from) =~= requested);
    }
}

/// Exactly the requested tickers are priced, whatever the live lookups
/// brought.
pub proof fn lemma_resolution_covers_request(
    table: Map<Seq<char>, int>,
    fallback: int,
    requested: Seq<Seq<char>>,
    live: Seq<Option<int>>,
)
    ensures
        resolved_prices(table, fallback, requested, live).dom() == requested.to_set(),
{
    assert(requested.take(0).to_set() =~= Set::<Seq<char>>::empty());
    lemma_resolved_prices_from(
        table,
        fallback,
        requested,
        0,
        Map::<Seq<char>, int>::empty(),
        live,
    );
}

/// A requested ticker that the table holds resolves to its table price,
/// whatever the live lookups brought: whether the service was out of reach,
/// answered with an error or quoted another price.
pub proof fn lemma_known_ticker_resolves_to_table_price(
    table: Map<Seq<char>, int>,
    fallback: int,
    requested: Seq<Seq<char>>,
    live: Seq<Option<int>>,
    ticker: Seq<char>,
)
    requires
        requested.contains(ticker),
        table.contains_key(ticker),
    ensures
        resolved_prices(table, fallback, requested, live).contains_key(ticker),
        resolved_prices(table, fallback, requested, live)[ticker] == table[ticker],
{
    assert(requested.take(0).to_set() =~= Set::<Seq<char>>::empty());
    lemma_resolved_prices_from(
        table,
        fallback,
        requested,
        0,
        Map::<Seq<char>, int>::empty(),
        live,
    );
    assert(requested.to_set().contains(ticker));
}

/// Giving table prices is part of resolution: resolving from a position
/// gives what resolving gives from the state that `settle_known` reaches.
pub proof fn lemma_settle_known_resolves(
    table: Map<Seq<char>, int>,
    fallback: int,
    requested: Seq<Seq<char>>,
    from: int,
    prices: Map<Seq<char>, int>,
    live: Seq<Option<int>>,
)
    requires
        0 <= from <= requested.len(),
    ensures
        ({
            let (position, settled) = settle_known(table, requested, from, prices);
            resolved_prices_from(table, fallback, requested, from, prices, live)
                == resolved_prices_from(table, fallback, requested, position, settled, live)
        }),
    decreases requested.len() - from,
{
    if from < requested.len() && table.contains_key(requested[from]) {
        lemma_settle_known_resolves(
            table,
            fallback,
            requested,
            from + 1,
            prices.insert(requested[from], table[requested[from]]),
            live,
        );
    }
}

/// What a live lookup brought as a price, in `Decimal` units; `None` where
/// it brought none.
pub open spec fn brought(outcome: LookupOutcome) -> Option<int> {
    match live_price(outcome) {
        Ok(units) => Some(units),
        Err(_) => None,
    }
}

/// One delivery to a `PriceFetch` is one step of resolution: resolving from
/// a pending ticker, with what its lookup brought listed first, gives what
/// resolving gives from the state after the delivery with the rest of the
/// list.
pub proof fn lemma_delivery_resolves(
    table: Map<Seq<char>, int>,
    fallback: int,
    requested: Seq<Seq<char>>,
    position: int,
    prices: Map<Seq<char>, int>,
    first: Option<int>,
    rest: Seq<Option<int>>,
)
    requires
        0 <= position < requested.len(),
        !table.contains_key(requested[position]),
    ensures
        ({
            let price = match first {
                Some(price) => price,
                None => fallback,
            };
            let (next, settled) = settle_known(
                table,
                requested,
                position + 1,
                prices.insert(requested[position], price),
            );
            resolved_prices_from(table, fallback, requested, position, prices, seq![first] + rest)
                == resolved_prices_from(table, fallback, requested, next, settled, rest)
        }),
{
    let live = seq![first] + rest;
    let price = match first {
        Some(price) => price,
        None => fallback,
    };
    assert(live.len() > 0 && live[0] == first);
    assert(live.skip(1) =~= rest);
    assert(resolved_prices_from(table, fallback, requested, position, prices, live)
        == resolved_prices_from(
        table,
        fallback,
        requested,
        position + 1,
        prices.insert(requested[position], price),
        rest,
    ));
    lemma_settle_known_resolves(
        table,
        fallback,
        requested,
        position + 1,
        prices.insert(requested[position], price),
        rest,
    );
}

/// How many of the tickers at positions `from` up to `to` the table does
/// not hold: the number of live lookups made for them.
pub open spec fn lookups_between(
    table: Map<Seq<char>, int>,
    requested: Seq<Seq<char>>,
    from: int,
    to: int,
) -> int
    decreases to - from,
{
    if from >= to {
        0
    } else {
        (if table.contains_key(requested[from]) {
            0int
        } else {
            1int
        }) + lookups_between(table, requested, from + 1, to)
    }
}

/// Whether every lookup made for `ticker` at a position from `from` on
/// brought no price, where `live` lists what the lookups from `from` on
/// brought.
pub open spec fn own_lookups_fail(
    table: Map<Seq<char>, int>,
    requested: Seq<Seq<char>>,
    from: int,
    live: Seq<Option<int>>,
    ticker: Seq<char>,
) -> bool {
    forall|i: int|
        from <= i < requested.len() && #[trigger] requested[i] == ticker ==> {
            let k = lookups_between(table, requested, from, i);
            k >= live.len() || live[k] is None
        }
}

/// A ticker whose own lookups bring no price keeps or gets the fallback
/// price, whatever the lookups for other tickers bring.
proof fn lemma_own_lookups_fail_from(
    table: Map<Seq<char>, int>,
    fallback: int,
    requested: Seq<Seq<char>>,
    from: int,
    prices: Map<Seq<char>, int>,
    live: Seq<Option<int>>,
    ticker: Seq<char>,
)
    requires
        0 <= from <= requested.len(),
        !table.contains_key(ticker),
        own_lookups_fail(table, requested, from, live, ticker),
        prices.contains_key(ticker) ==> prices[ticker] == fallback,
    ensures
        ({
            let resolved = resolved_prices_from(table, fallback, requested, from, prices, live);
            resolved.contains_key(ticker) ==> resolved[ticker] == fallback
        }),
    decreases requested.len() - from,
{
    let resolved = resolved_prices_from(table, fallback, requested, from, prices, live);
    if from < requested.len() {
        let t = requested[from];
        assert(lookups_between(table, requested, from, from) == 0);
        if table.contains_key(t) {
            let next = prices.insert(t, table[t]);
            assert(resolved == resolved_prices_from(
                table,
                fallback,
                requested,
                from + 1,
                next,
                live,
            ));
            assert forall|i: int|
                from + 1 <= i < requested.len() && #[trigger] requested[i] == ticker implies {
                let k = lookups_between(table, requested, from + 1, i);
                k >= live.len() || live[k] is None
            } by {
                assert(lookups_between(table, requested, from, i) == lookups_between(
                    table,
                    requested,
                    from + 1,
                    i,
                ));
            }
            lemma_own_lookups_fail_from(table, fallback, requested, from + 1, next, live, ticker);
        } else if live.len() > 0 {
            let price = match live[0] {
                Some(price) => price,
                None => fallback,
            };
            let next = prices.insert(t, price);
            assert(resolved == resolved_prices_from(
                table,
                fallback,
                requested,
                from + 1,
                next,
                live.skip(1),
            ));
            if t == ticker {
                assert(live[0] is None);
            }
            assert forall|i: int|
                from + 1 <= i < requested.len() && #[trigger] requested[i] == ticker implies {
                let k = lookups_between(table, requested, from + 1, i);
                k >= live.skip(1).len() || live.skip(1)[k] is None
            } by {
                let k = lookups_between(table, requested, from + 1, i);
                assert(lookups_between(table, requested, from, i) == 1 + k);
                lemma_lookups_between_is_count(table, requested, from + 1, i);
                if k < live.skip(1).len() {
                    assert(live.skip(1)[k] == live[k + 1]);
                }
            }
            lemma_own_lookups_fail_from(
                table,
                fallback,
                requested,
                from + 1,
                next,
                live.skip(1),
                ticker,
            );
        } else {
            let next = prices.insert(t, fallback);
            assert(resolved == resolved_prices_from(
                table,
                fallback,
                requested,
                from + 1,
                next,
                live,
            ));
            assert forall|i: int|
                from + 1 <= i < requested.len() && #[trigger] requested[i] == ticker implies {
                let k = lookups_between(table, requested, from + 1, i);
                k >= live.len() || live[k] is None
            } by {
                lemma_lookups_between_is_count(table, requested, from + 1, i);
            }
            lemma_own_lookups_fail_from(table, fallback, requested, from + 1, next, live, ticker);
        }
    }
}

/// A number of lookups is not negative.
proof fn lemma_lookups_between_is_count(
    table: Map<Seq<char>, int>,
    requested: Seq<Seq<char>>,
    from: int,
    to: int,
)
    ensures
        lookups_between(table, requested, from, to) >= 0,
    decreases to - from,
{
    if from < to {
        lemma_lookups_between_is_count(table, requested, from + 1, to);
    }
}

/// A requested ticker that the table does not hold resolves to the fallback
/// price where each of its own lookups brings no price, whatever the
/// lookups for other tickers bring.
pub proof fn lemma_failed_ticker_resolves_to_fallback(
    table: Map<Seq<char>, int>,
    fallback: int,
    requested: Seq<Seq<char>>,
    live: Seq<Option<int>>,
    ticker: Seq<char>,
)
    requires
        requested.contains(ticker),
        !table.contains_key(ticker),
        own_lookups_fail(table, requested, 0, live, ticker),
    ensures
        resolved_prices(table, fallback, requested, live).contains_key(ticker),
        resolved_prices(table, fallback, requested, live)[ticker] == fallback,
{
    lemma_resolution_covers_request(table, fallback, requested, live);
    lemma_own_lookups_fail_from(
        table,
        fallback,
        requested,
        0,
        Map::<Seq<char>, int>::empty(),
        live,
        ticker,
    );
    assert(requested.to_set().contains(ticker));
}

/// A requested ticker that the table does not hold resolves to the fallback
/// price where no live lookup brings a price.
pub proof fn lemma_unreachable_ticker_resolves_to_fallback(
    table: Map<Seq<char>, int>,
    fallback: int,
    requested: Seq<Seq<char>>,
    live: Seq<Option<int>>,
    ticker: Seq<char>,
)
    requires
        requested.contains(ticker),
        !table.contains_key(ticker),
        forall|k: int| 0 <= k < live.len() ==> live[k] is None,
    ensures
        resolved_prices(table, fallback, requested, live).contains_key(ticker),
        resolved_prices(table, fallback, requested, live)[ticker] == fallback,
{
    assert forall|i: int|
        0 <= i < requested.len() && #[trigger] requested[i] == ticker implies {
        let k = lookups_between(table, requested, 0, i);
        k >= live.len() || live[k] is None
    } by {
        lemma_lookups_between_is_count(table, requested, 0, i);
    }
    lemma_failed_ticker_resolves_to_fallback(table, fallback, requested, live, ticker);
}

impl PriceResolver {
    /// The prices of `tickers`, given what the live lookups brought: `live`
    /// holds, for each ticker that the table does not hold, in order of
    /// request, the price that its lookup brought or `None` where it brought
    /// none. A ticker whose lookup is not listed is given the fallback
    /// price.
    pub fn resolve(&self, tickers: &[String], live: &[Option<Decimal>]) -> (prices: PriceMap)
        ensures
            prices@ == resolved_prices(
                self.known@,
                self.fallback@,
                texts(tickers@),
                live_units(live@),
            ),
            prices@.dom() == texts(tickers@).to_set(),
            forall|t: Seq<char>|
                prices@.contains_key(t) && self.known@.contains_key(t) ==> prices@[t]
                    == self.known@[t],
    {
        let ghost requested = texts(tickers@);
        let ghost brought = live_units(live@);
        let ghost goal = resolved_prices(self.known@, self.fallback@, requested, brought);
        proof {
            assert(requested.take(0).to_set() =~= Set::<Seq<char>>::empty());
            lemma_resolved_prices_from(
                self.known@,
                self.fallback@,
                requested,
                0,
                Map::<Seq<char>, int>::empty(),
                brought,
            );
            assert(brought.skip(0) =~= brought);
        }
        let mut prices = PriceMap::new();
        let mut used: usize = 0;
        let mut i: usize = 0;
        while i < tickers.len()
            invariant
                i <= tickers.len(),
                used <= live.len(),
                requested == texts(tickers@),
                brought == live_units(live@),
                resolved_prices_from(
                    self.known@,
                    self.fallback@,
                    requested,
                    i as int,
                    prices@,
                    brought.skip(used as int),
                ) == goal,
            decreases tickers.len() - i,
        {
            assert(requested[i as int] == tickers[i as int]@);
            let ghost rest = brought.skip(used as int);
            let price = match self.known.get(tickers[i].as_str()) {
                Some(price) => price,
                None => {
                    if used < live.len() {
                        assert(rest[0] == brought[used as int]);
                        assert(rest.skip(1) =~= brought.skip(used + 1));
                        let price = match live[used] {
                            Some(price) => price,
                            None => self.fallback,
                        };
                        used += 1;
                        price
                    } else {
                        assert(rest.len() == 0);
                        self.fallback
                    }
                },
            };
            prices.insert(tickers[i].clone(), price);
            i += 1;
        }
        prices
    }
}

/// Begins to resolve the prices of `tickers` with the standard resolver.
pub fn fetch_current_prices(tickers: &[String]) -> (fetch: PriceFetch)
    ensures
        fetch.table() == known_prices(),
        fetch.api_key() == "demo"@,
        fetch.fallback() == FALLBACK_PRICE_UNITS,
        fetch.requested() == texts(tickers@),
        (fetch.position(), fetch.prices()) == settle_known(
            known_prices(),
            texts(tickers@),
            0,
            Map::<Seq<char>, int>::empty(),
        ),
        fetch.consistent(),
        forall|live: Seq<Option<int>>|
            resolved_prices(known_prices(), FALLBACK_PRICE_UNITS as int, texts(tickers@), live)
                == #[trigger] resolved_prices_from(
                fetch.table(),
                fetch.fallback(),
                fetch.requested(),
                fetch.position(),
                fetch.prices(),
                live,
            ),
{
    PriceResolver::standard().start(tickers)
}

} // verus!
