//! A map from ticker symbols to prices.

use crate::decimal::Decimal;
use crate::text::same_text;
use vstd::prelude::*;

verus! {

/// One ticker with its price.
struct PriceEntry {
    ticker: String,
    price: Decimal,
}

/// A map from ticker symbols to prices. Tickers are compared character by
/// character, so symbols that differ only in case are different keys.
pub struct PriceMap {
    entries: Vec<PriceEntry>,
}

/// The tickers of `entries`, in order.
spec fn tickers_of(entries: Seq<PriceEntry>) -> Seq<Seq<char>> {
    entries.map_values(|e: PriceEntry| e.ticker@)
}

/// The map that a list of entries with distinct tickers stands for.
spec fn map_of(entries: Seq<PriceEntry>) -> Map<Seq<char>, int> {
    Map::new(
        |ticker: Seq<char>| tickers_of(entries).contains(ticker),
        |ticker: Seq<char>| entries[tickers_of(entries).index_of(ticker)].price@,
    )
}

/// In a list with distinct tickers, each entry's ticker maps to its price.
proof fn lemma_map_of_entry(entries: Seq<PriceEntry>, i: int)
    requires
        tickers_of(entries).no_duplicates(),
        0 <= i < entries.len(),
    ensures
        map_of(entries).contains_key(entries[i].ticker@),
        map_of(entries)[entries[i].ticker@] == entries[i].price@,
{
    let tickers = tickers_of(entries);
    assert(tickers[i] == entries[i].ticker@);
    assert(tickers.contains(entries[i].ticker@));
    let j = tickers.index_of(entries[i].ticker@);
    assert(tickers[j] == tickers[i]);
}

/// Listing a ticker that was not listed adds it to the map.
proof fn lemma_map_of_push(before: Seq<PriceEntry>, entry: PriceEntry)
    requires
        tickers_of(before).no_duplicates(),
        !tickers_of(before).contains(entry.ticker@),
    ensures
        tickers_of(before.push(entry)).no_duplicates(),
        map_of(before.push(entry)) == map_of(before).insert(entry.ticker@, entry.price@),
{
    let after = before.push(entry);
    let n = before.len() as int;
    let expected = map_of(before).insert(entry.ticker@, entry.price@);
    assert(tickers_of(after) =~= tickers_of(before).push(entry.ticker@));
    assert forall|i: int, j: int|
        0 <= i < after.len() && 0 <= j < after.len() && i != j implies tickers_of(after)[i]
        != tickers_of(after)[j] by {
        if i < n {
            assert(tickers_of(before)[i] == tickers_of(after)[i]);
        }
        if j < n {
            assert(tickers_of(before)[j] == tickers_of(after)[j]);
        }
    }
    assert forall|t: Seq<char>| map_of(after).contains_key(t) == expected.contains_key(t) by {
        if tickers_of(after).contains(t) {
            let j = tickers_of(after).index_of(t);
            if j < n {
                assert(tickers_of(before)[j] == t);
            }
        }
        if tickers_of(before).contains(t) {
            let j = tickers_of(before).index_of(t);
            assert(tickers_of(after)[j] == t);
        }
        if t == entry.ticker@ {
            assert(tickers_of(after)[n] == t);
        }
    }
    assert forall|t: Seq<char>| map_of(after).contains_key(t) implies map_of(after)[t]
        == expected[t] by {
        let j = tickers_of(after).index_of(t);
        lemma_map_of_entry(after, j);
        if j < n {
            assert(tickers_of(before)[j] == t);
            lemma_map_of_entry(before, j);
        }
    }
    assert(map_of(after) =~= expected);
}

/// Replacing an entry by one with the same ticker changes that ticker's
/// price in the map.
proof fn lemma_map_of_update(before: Seq<PriceEntry>, i: int, entry: PriceEntry)
    requires
        tickers_of(before).no_duplicates(),
        0 <= i < before.len(),
        before[i].ticker@ == entry.ticker@,
    ensures
        tickers_of(before.update(i, entry)).no_duplicates(),
        map_of(before.update(i, entry)) == map_of(before).insert(entry.ticker@, entry.price@),
{
    let after = before.update(i, entry);
    let expected = map_of(before).insert(entry.ticker@, entry.price@);
    assert(tickers_of(after) =~= tickers_of(before));
    lemma_map_of_entry(before, i);
    assert forall|t: Seq<char>| map_of(after).contains_key(t) implies map_of(after)[t]
        == expected[t] by {
        let j = tickers_of(after).index_of(t);
        assert(tickers_of(after)[j] == t);
        assert(tickers_of(before)[j] == before[j].ticker@);
        assert(tickers_of(before)[i] == before[i].ticker@);
        lemma_map_of_entry(after, j);
        lemma_map_of_entry(before, j);
    }
    assert(map_of(after) =~= expected);
}

impl View for PriceMap {
    type V = Map<Seq<char>, int>;

    /// The price of each ticker that has one, in `Decimal` units.
    closed spec fn view(&self) -> Map<Seq<char>, int> {
        map_of(self.entries@)
    }
}

impl PriceMap {
    /// No ticker is listed twice.
    #[verifier::type_invariant]
    spec fn distinct(self) -> bool {
        tickers_of(self.entries@).no_duplicates()
    }

    /// A map without any ticker.
    pub fn new() -> (result: PriceMap)
        ensures
            result@ == Map::<Seq<char>, int>::empty(),
    {
        let result = PriceMap { entries: Vec::new() };
        assert(result@ =~= Map::<Seq<char>, int>::empty());
        result
    }

    /// Where `ticker` is listed, if it is.
    fn position(&self, ticker: &str) -> (result: Option<usize>)
        ensures
            match result {
                Some(i) => i < self.entries.len() && self.entries[i as int].ticker@ == ticker@,
                None => !tickers_of(self.entries@).contains(ticker@),
            },
    {
        let mut i: usize = 0;
        while i < self.entries.len()
            invariant
                i <= self.entries.len(),
                forall|j: int| 0 <= j < i ==> self.entries[j].ticker@ != ticker@,
            decreases self.entries.len() - i,
        {
            if same_text(self.entries[i].ticker.as_str(), ticker) {
                return Some(i);
            }
            i += 1;
        }
        assert forall|j: int| 0 <= j < self.entries.len() implies tickers_of(self.entries@)[j]
            != ticker@ by {
            assert(tickers_of(self.entries@)[j] == self.entries[j].ticker@);
        }
        None
    }

    /// The price of `ticker`, if it has one.
    pub fn get(&self, ticker: &str) -> (result: Option<Decimal>)
        ensures
            result is Some <==> self@.contains_key(ticker@),
            result is Some ==> result.unwrap()@ == self@[ticker@],
    {
        proof {
            use_type_invariant(self);
        }
        match self.position(ticker) {
            Some(i) => {
                proof {
                    lemma_map_of_entry(self.entries@, i as int);
                }
                Some(self.entries[i].price)
            },
            None => None,
        }
    }

    /// Whether `ticker` has a price.
    pub fn contains_key(&self, ticker: &str) -> (result: bool)
        ensures
            result == self@.contains_key(ticker@),
    {
        proof {
            use_type_invariant(self);
        }
        match self.position(ticker) {
            Some(i) => {
                proof {
                    lemma_map_of_entry(self.entries@, i as int);
                }
                true
            },
            None => false,
        }
    }

    /// The number of tickers that have a price.
    pub fn len(&self) -> (result: usize)
        ensures
            self@.dom().finite(),
            result == self@.dom().len(),
    {
        proof {
            use_type_invariant(self);
            let tickers = tickers_of(self.entries@);
            tickers.unique_seq_to_set();
            vstd::seq_lib::seq_to_set_is_finite(tickers);
            assert(self@.dom() =~= tickers.to_set());
        }
        self.entries.len()
    }

    /// Whether no ticker has a price.
    pub fn is_empty(&self) -> (result: bool)
        ensures
            result == (self@ == Map::<Seq<char>, int>::empty()),
    {
        proof {
            use_type_invariant(self);
            if self.entries.len() > 0 {
                lemma_map_of_entry(self.entries@, 0);
            } else {
                assert(self@ =~= Map::<Seq<char>, int>::empty());
            }
        }
        self.entries.len() == 0
    }

    /// Gives `ticker` the price `price`, in place of any price it had, and
    /// returns the price it had.
    pub fn insert(&mut self, ticker: String, price: Decimal) -> (previous: Option<Decimal>)
        ensures
            final(self)@ == old(self)@.insert(ticker@, price@),
            previous is Some <==> old(self)@.contains_key(ticker@),
            previous is Some ==> previous.unwrap()@ == old(self)@[ticker@],
    {
        proof {
            use_type_invariant(&*self);
        }
        let found = self.position(ticker.as_str());
        let ghost before = self.entries@;
        let entry = PriceEntry { ticker, price };
        let mut entries: Vec<PriceEntry> = Vec::new();
        core::mem::swap(&mut self.entries, &mut entries);
        let previous = match found {
            Some(i) => {
                proof {
                    lemma_map_of_entry(before, i as int);
                    lemma_map_of_update(before, i as int, entry);
                }
                let previous = entries[i].price;
                entries.set(i, entry);
                Some(previous)
            },
            None => {
                proof {
                    lemma_map_of_push(before, entry);
                }
                entries.push(entry);
                None
            },
        };
        core::mem::swap(&mut self.entries, &mut entries);
        previous
    }
}

} // verus!
