//! The price cache: unit prices in USD, kept for each asset and day, and
//! what is asked of the remote price source where one is missing.

use crate::calendar::{Date, DateView};
use crate::primitives::Address;
use crate::text::hex_text;
use vstd::prelude::*;

verus! {

/// A unit price in USD, held as the bits of its IEEE 754 double. The cache
/// stores and returns a price as it is; nothing is computed on it here.
#[derive(Clone, Copy, Debug, PartialEq, Eq, Structural, Hash)]
pub struct Price {
    pub bits: u64,
}

/// An address as it is written in a key and in a query: `0x` and two
/// lower-case hexadecimal digits for each byte.
pub open spec fn address_text(address: Address) -> Seq<char> {
    "0x"@ + hex_text(address.bytes@)
}

/// Writes the address with the `Debug` of ethers' `Address`. The contract
/// claims what that implementation prints: `0x`, then every byte in order as
/// two lower-case hexadecimal digits, nothing left out.
#[verifier::external_body]
fn address_debug(address: &Address) -> (text: String)
    ensures
        text@ == address_text(*address),
{
    format!("{:?}", ethers_core::types::H160(address.bytes))
}

/// The key under which the price of an asset on a day is kept: the
/// contract's address for a token, `eth` for the native asset, then `_` and
/// the date.
pub open spec fn cache_key(asset: Option<Address>, date: DateView) -> Seq<char> {
    (match asset {
        Some(contract) => address_text(contract),
        None => "eth"@,
    }) + "_"@ + date.text()
}

/// Whether one of the entries has the key `key`.
spec fn has_key(entries: Seq<(String, Price)>, key: Seq<char>) -> bool {
    exists|k: int| 0 <= k < entries.len() && (#[trigger] entries[k]).0@ == key
}

/// The place of an entry with the key `key`, if there is one.
spec fn key_index(entries: Seq<(String, Price)>, key: Seq<char>) -> int {
    choose|k: int| 0 <= k < entries.len() && (#[trigger] entries[k]).0@ == key
}

/// Whether no two entries have the same key.
pub open spec fn distinct_keys(entries: Seq<(String, Price)>) -> bool {
    forall|a: int, b: int|
        0 <= a < b < entries.len() ==> (#[trigger] entries[a]).0@ != (#[trigger] entries[b]).0@
}

/// Entries with distinct keys, as a map from key to price.
spec fn prices_map(entries: Seq<(String, Price)>) -> Map<Seq<char>, Price> {
    Map::new(
        |key: Seq<char>| has_key(entries, key),
        |key: Seq<char>| entries[key_index(entries, key)].1,
    )
}

/// A list of keys and prices, with the keys as sequences of characters.
pub open spec fn entries_view(entries: Seq<(String, Price)>) -> Seq<(Seq<char>, Price)> {
    Seq::new(entries.len(), |i: int| (entries[i].0@, entries[i].1))
}

/// The prices that a stored list stands for: of two entries with one key the
/// later one counts.
pub open spec fn stored_map(stored: Seq<(Seq<char>, Price)>) -> Map<Seq<char>, Price>
    decreases stored.len(),
{
    if stored.len() == 0 {
        Map::empty()
    } else {
        stored_map(stored.drop_last()).insert(stored.last().0, stored.last().1)
    }
}

/// With distinct keys, a list read as stored prices gives the map of its
/// entries.
proof fn lemma_distinct_entries_store_themselves(entries: Seq<(String, Price)>)
    requires
        distinct_keys(entries),
    ensures
        stored_map(entries_view(entries)) == prices_map(entries),
    decreases entries.len(),
{
    if entries.len() == 0 {
        assert(prices_map(entries) =~= Map::<Seq<char>, Price>::empty());
    } else {
        let earlier = entries.drop_last();
        let last = entries.len() - 1;
        assert(entries_view(entries).drop_last() =~= entries_view(earlier));
        assert forall|a: int, b: int| 0 <= a < b < earlier.len() implies (
        #[trigger] earlier[a]).0@ != (#[trigger] earlier[b]).0@ by {
            assert(entries[a].0@ != entries[b].0@);
        }
        lemma_distinct_entries_store_themselves(earlier);
        assert forall|key: Seq<char>| #[trigger]
            has_key(entries, key) <==> has_key(earlier, key) || key == entries[last].0@ by {
            if has_key(entries, key) {
                let k = key_index(entries, key);
                if k < last {
                    assert(earlier[k].0@ == key);
                }
            }
            if has_key(earlier, key) {
                let k = key_index(earlier, key);
                assert(entries[k].0@ == key);
            }
            if key == entries[last].0@ {
                assert(entries[last].0@ == key);
            }
        }
        assert forall|key: Seq<char>| has_key(entries, key) implies #[trigger] prices_map(
            entries,
        )[key] == prices_map(earlier).insert(entries[last].0@, entries[last].1)[key] by {
            let k = key_index(entries, key);
            if k < last {
                assert(earlier[k].0@ == key);
                let k0 = key_index(earlier, key);
                assert(entries[k0].0@ == key);
                assert(k0 == k);
            }
        }
        assert(prices_map(entries) =~= prices_map(earlier).insert(
            entries[last].0@,
            entries[last].1,
        ));
    }
}

fn find_key(entries: &Vec<(String, Price)>, key: &String) -> (place: Option<usize>)
    ensures
        (match place {
            Some(k) => k < entries@.len() && entries@[k as int].0@ == key@,
            None => !has_key(entries@, key@),
        }),
{
    let mut k: usize = 0;
    while k < entries.len()
        invariant
            k <= entries@.len(),
            forall|i: int| 0 <= i < k ==> (#[trigger] entries@[i]).0@ != key@,
        decreases entries@.len() - k,
    {
        if entries[k].0 == *key {
            return Some(k);
        }
        k = k + 1;
    }
    None
}

/// The query of the request for the price of an asset on a day: the
/// endpoint's module and action, the contract for a token, the date, and the
/// caller's key where there is one.
pub open spec fn price_query(
    api_key: Option<Seq<char>>,
    asset: Option<Address>,
    date: DateView,
) -> Seq<(Seq<char>, Seq<char>)> {
    let head = match asset {
        Some(contract) => seq![
            ("module"@, "stats"@),
            ("action"@, "tokenpricehistory"@),
            ("contractaddress"@, address_text(contract)),
        ],
        None => seq![("module"@, "stats"@), ("action"@, "ethdailyprice"@)],
    };
    let dated = head.push(("date"@, date.text()));
    match api_key {
        Some(key) => dated.push(("apikey"@, key)),
        None => dated,
    }
}

/// A list of names and values, as sequences of characters.
pub open spec fn query_view(query: Seq<(String, String)>) -> Seq<(Seq<char>, Seq<char>)> {
    Seq::new(query.len(), |i: int| (query[i].0@, query[i].1@))
}

/// Builds the query of the request for the price of an asset on a day.
pub fn fetch_price_query(api_key: Option<&str>, address: Option<Address>, date: Date) -> (query:
    Vec<(String, String)>)
    ensures
        query_view(query@) == price_query(
            match api_key {
                Some(key) => Some(key@),
                None => None,
            },
            address,
            date@,
        ),
{
    let mut query: Vec<(String, String)> = Vec::new();
    query.push(("module".to_owned(), "stats".to_owned()));
    match address {
        Some(contract) => {
            query.push(("action".to_owned(), "tokenpricehistory".to_owned()));
            query.push(("contractaddress".to_owned(), address_debug(&contract)));
        },
        None => {
            query.push(("action".to_owned(), "ethdailyprice".to_owned()));
        },
    }
    query.push(("date".to_owned(), date.to_text()));
    match api_key {
        Some(key) => {
            query.push(("apikey".to_owned(), key.to_owned()));
        },
        None => {},
    }
    assert(query_view(query@) =~= price_query(
        match api_key {
            Some(key) => Some(key@),
            None => None,
        },
        address,
        date@,
    ));
    query
}

/// What a lookup in the cache comes to.
#[derive(Debug)]
pub enum PriceLookup {
    /// The price is in the cache.
    Cached(Price),
    /// The price is not in the cache; this is the query to send for it.
    Missing(Vec<(String, String)>),
}

/// Prices by asset and day.
#[derive(Debug)]
pub struct Cache {
    api_key: Option<String>,
    path: Option<String>,
    prices: Vec<(String, Price)>,
}

impl Cache {
    /// Whether no key has two prices. Every cache is so.
    #[verifier::type_invariant]
    pub closed spec fn wf(&self) -> bool {
        distinct_keys(self.prices@)
    }

    /// The prices, as a map from key to price.
    pub closed spec fn view(&self) -> Map<Seq<char>, Price> {
        prices_map(self.prices@)
    }

    /// The entries as they are kept and saved.
    pub closed spec fn entries(&self) -> Seq<(Seq<char>, Price)> {
        entries_view(self.prices@)
    }

    /// Where the cache is saved, if anywhere.
    pub closed spec fn path(&self) -> Option<Seq<char>> {
        self.path.deep_view()
    }

    /// The caller's key for the price source, if there is one.
    pub closed spec fn api_key_view(&self) -> Option<Seq<char>> {
        self.api_key.deep_view()
    }

    /// The caller's key for the price source, if there is one.
    pub fn api_key(&self) -> (key: Option<&str>)
        ensures
            (match key {
                Some(text) => self.api_key_view() == Some(text@),
                None => self.api_key_view() is None,
            }),
    {
        match &self.api_key {
            Some(text) => Some(text.as_str()),
            None => None,
        }
    }

    /// A cache without prices that is saved nowhere.
    pub fn new(api_key: Option<String>) -> (cache: Cache)
        ensures
            cache@ == Map::<Seq<char>, Price>::empty(),
            cache.path() is None,
            cache.api_key_view() == api_key.deep_view(),
    {
        let cache = Cache { api_key, path: None, prices: Vec::new() };
        assert(cache@ =~= Map::<Seq<char>, Price>::empty());
        cache
    }

    /// The cache that is saved at `path`, with the prices that were stored
    /// there: `stored` holds them where the file was there and could be read,
    /// and is `None` where it was missing or unreadable, which gives an empty
    /// cache.
    pub fn load(path: String, stored: Option<Vec<(String, Price)>>, api_key: Option<String>) -> (cache:
        Cache)
        ensures
            (cache@ == match stored {
                Some(entries) => stored_map(entries_view(entries@)),
                None => Map::<Seq<char>, Price>::empty(),
            }),
            cache.path() == Some(path@),
            cache.api_key_view() == api_key.deep_view(),
    {
        let mut cache = Cache { api_key, path: Some(path), prices: Vec::new() };
        assert(cache@ =~= Map::<Seq<char>, Price>::empty());
        match stored {
            Some(entries) => {
                let mut i: usize = 0;
                while i < entries.len()
                    invariant
                        i <= entries@.len(),
                        cache@ == stored_map(entries_view(entries@.take(i as int))),
                        cache.path() == Some(path@),
                        cache.api_key_view() == api_key.deep_view(),
                    decreases entries@.len() - i,
                {
                    let key = entries[i].0.clone();
                    cache.put(key, entries[i].1);
                    assert(entries_view(entries@.take(i as int + 1)).drop_last() =~= entries_view(
                        entries@.take(i as int),
                    ));
                    i = i + 1;
                }
                assert(entries@.take(i as int) =~= entries@);
            },
            None => {},
        }
        cache
    }

    /// What is to be written at the save point, and where: the path and
    /// every entry, each key once. `None` for a cache that is saved nowhere.
    pub fn save(&self) -> (saved: Option<(String, Vec<(String, Price)>)>)
        ensures
            saved is Some <==> self.path() is Some,
            (saved matches Some(file) ==> {
                &&& Some(file.0@) == self.path()
                &&& distinct_keys(file.1@)
                &&& entries_view(file.1@) == self.entries()
            }),
    {
        proof {
            use_type_invariant(self);
        }
        match &self.path {
            Some(path) => {
                let mut entries: Vec<(String, Price)> = Vec::new();
                let mut i: usize = 0;
                while i < self.prices.len()
                    invariant
                        i <= self.prices@.len(),
                        entries@.len() == i,
                        forall|k: int|
                            0 <= k < i ==> (#[trigger] entries@[k]).0@ == self.prices@[k].0@
                                && entries@[k].1 == self.prices@[k].1,
                    decreases self.prices@.len() - i,
                {
                    entries.push((self.prices[i].0.clone(), self.prices[i].1));
                    i = i + 1;
                }
                proof {
                    lemma_same_entries(entries@, self.prices@);
                    assert(entries_view(entries@) =~= entries_view(self.prices@));
                }
                Some((path.clone(), entries))
            },
            None => None,
        }
    }

    /// Sets the price under a key, in place of the one it had, if any.
    fn put(&mut self, key: String, price: Price)
        ensures
            final(self)@ == old(self)@.insert(key@, price),
            final(self).path() == old(self).path(),
            final(self).api_key_view() == old(self).api_key_view(),
    {
        proof {
            use_type_invariant(&*self);
        }
        let ghost before = self.prices@;
        let mut prices: Vec<(String, Price)> = Vec::new();
        core::mem::swap(&mut self.prices, &mut prices);
        match find_key(&prices, &key) {
            Some(k) => {
                prices[k].1 = price;
                proof {
                    let after = prices@;
                    assert forall|i: int| 0 <= i < after.len() implies (#[trigger] after[i]).0@
                        == before[i].0@ by {}
                    assert forall|h: Seq<char>| #[trigger]
                        has_key(after, h) <==> has_key(before, h) by {
                        if has_key(after, h) {
                            assert(before[key_index(after, h)].0@ == h);
                        }
                        if has_key(before, h) {
                            assert(after[key_index(before, h)].0@ == h);
                        }
                    }
                    assert(has_key(before, key@));
                    assert forall|h: Seq<char>| has_key(after, h) implies #[trigger] prices_map(
                        after,
                    )[h] == prices_map(before).insert(key@, price)[h] by {
                        let i = key_index(after, h);
                        assert(before[i].0@ == h);
                        let i0 = key_index(before, h);
                        assert(i0 == i);
                    }
                    assert(prices_map(after) =~= prices_map(before).insert(key@, price));
                }
            },
            None => {
                prices.push((key, price));
                proof {
                    let after = prices@;
                    let last = after.len() - 1;
                    assert(after.drop_last() =~= before);
                    assert forall|a: int, b: int| 0 <= a < b < after.len() implies (
                    #[trigger] after[a]).0@ != (#[trigger] after[b]).0@ by {
                        if b == last {
                            assert(before[a].0@ != key@);
                        } else {
                            assert(before[a].0@ != before[b].0@);
                        }
                    }
                    assert(entries_view(after).drop_last() =~= entries_view(before));
                    lemma_distinct_entries_store_themselves(after);
                    lemma_distinct_entries_store_themselves(before);
                }
            },
        }
        self.prices = prices;
    }

    /// The key under which the price of an asset on a day is kept.
    pub fn key(address: Option<Address>, date: Date) -> (key: String)
        ensures
            key@ == cache_key(address, date@),
    {
        let mut key = match address {
            Some(contract) => address_debug(&contract),
            None => "eth".to_owned(),
        };
        key.append("_");
        let day = date.to_text();
        key.append(day.as_str());
        key
    }

    /// Records the price of an asset on a day, in place of the one recorded
    /// before, if any.
    pub fn insert_price(&mut self, address: Option<Address>, date: Date, price: Price)
        ensures
            final(self)@ == old(self)@.insert(cache_key(address, date@), price),
            final(self).path() == old(self).path(),
            final(self).api_key_view() == old(self).api_key_view(),
    {
        let key = Cache::key(address, date);
        self.put(key, price);
    }

    /// The price of an asset on a day, if the cache holds it.
    pub fn get(&self, address: Option<Address>, date: Date) -> (found: Option<Price>)
        ensures
            found == cached(self@, cache_key(address, date@)),
    {
        proof {
            use_type_invariant(self);
        }
        let key = Cache::key(address, date);
        match find_key(&self.prices, &key) {
            Some(k) => {
                assert(key_index(self.prices@, key@) == k);
                Some(self.prices[k].1)
            },
            None => None,
        }
    }

    /// Looks the price of an asset on a day up. A price that is in the cache
    /// is returned; for one that is not, the query to send to the price
    /// source is returned, and the cache waits for `insert_price`.
    pub fn price(&self, address: Option<Address>, date: Date) -> (lookup: PriceLookup)
        ensures
            (match lookup {
                PriceLookup::Cached(price) => cached(self@, cache_key(address, date@)) == Some(
                    price,
                ),
                PriceLookup::Missing(query) => cached(self@, cache_key(address, date@)) is None
                    && query_view(query@) == price_query(
                    self.api_key_view(),
                    address,
                    date@,
                ),
            }),
    {
        match self.get(address, date) {
            Some(price) => PriceLookup::Cached(price),
            None => PriceLookup::Missing(fetch_price_query(self.api_key(), address, date)),
        }
    }
}

/// Entries that agree key by key and price by price are distinct together
/// and stand for the same map.
proof fn lemma_same_entries(copy: Seq<(String, Price)>, entries: Seq<(String, Price)>)
    requires
        copy.len() == entries.len(),
        forall|k: int|
            0 <= k < copy.len() ==> (#[trigger] copy[k]).0@ == entries[k].0@ && copy[k].1
                == entries[k].1,
        distinct_keys(entries),
    ensures
        distinct_keys(copy),
        prices_map(copy) == prices_map(entries),
{
    assert forall|a: int, b: int| 0 <= a < b < copy.len() implies (#[trigger] copy[a]).0@ != (
    #[trigger] copy[b]).0@ by {
        assert(entries[a].0@ != entries[b].0@);
    }
    assert forall|h: Seq<char>| #[trigger] has_key(copy, h) <==> has_key(entries, h) by {
        if has_key(copy, h) {
            assert(entries[key_index(copy, h)].0@ == h);
        }
        if has_key(entries, h) {
            assert(copy[key_index(entries, h)].0@ == h);
        }
    }
    assert forall|h: Seq<char>| has_key(copy, h) implies #[trigger] prices_map(copy)[h]
        == prices_map(entries)[h] by {
        let i = key_index(copy, h);
        assert(entries[i].0@ == h);
        assert(key_index(entries, h) == i);
    }
    assert(prices_map(copy) =~= prices_map(entries));
}

/// The price that the cache holds under a key, if any.
pub open spec fn cached(prices: Map<Seq<char>, Price>, key: Seq<char>) -> Option<Price> {
    if prices.contains_key(key) {
        Some(prices[key])
    } else {
        None
    }
}

/// One field of a JSON object, as far as a price is read from it.
#[derive(Debug)]
pub enum JsonField {
    /// The object has no such field.
    Absent,
    /// The field is there and holds something other than a text.
    NotText,
    /// The field holds this text.
    Text(String),
}

/// What a [`JsonField`] holds, with its text as a sequence of characters.
pub enum JsonFieldView {
    Absent,
    NotText,
    Text(Seq<char>),
}

impl DeepView for JsonField {
    type V = JsonFieldView;

    open spec fn deep_view(&self) -> JsonFieldView {
        match self {
            JsonField::Absent => JsonFieldView::Absent,
            JsonField::NotText => JsonFieldView::NotText,
            JsonField::Text(text) => JsonFieldView::Text(text@),
        }
    }
}

/// The `result` of the price source's answer, as far as a price is read
/// from it.
#[derive(Debug)]
pub enum PriceReply {
    /// `result` is a list; the fields are those of its first element.
    Listed { ethusd: JsonField, token_price_usd: JsonField },
    /// `result` is an object; the fields are its own.
    Single { ethusd: JsonField, token_price_usd: JsonField },
    /// `result` is anything else, or an empty list.
    Other,
}

/// What a [`PriceReply`] holds, with its texts as sequences of characters.
pub enum PriceReplyView {
    Listed { ethusd: JsonFieldView, token_price_usd: JsonFieldView },
    Single { ethusd: JsonFieldView, token_price_usd: JsonFieldView },
    Other,
}

impl DeepView for PriceReply {
    type V = PriceReplyView;

    open spec fn deep_view(&self) -> PriceReplyView {
        match self {
            PriceReply::Listed { ethusd, token_price_usd } => PriceReplyView::Listed {
                ethusd: ethusd.deep_view(),
                token_price_usd: token_price_usd.deep_view(),
            },
            PriceReply::Single { ethusd, token_price_usd } => PriceReplyView::Single {
                ethusd: ethusd.deep_view(),
                token_price_usd: token_price_usd.deep_view(),
            },
            PriceReply::Other => PriceReplyView::Other,
        }
    }
}

/// The text of a field, where it holds one.
pub open spec fn field_text(field: JsonFieldView) -> Option<Seq<char>> {
    match field {
        JsonFieldView::Text(text) => Some(text),
        _ => None,
    }
}

/// The figure that an answer quotes, or `0` where it quotes none. In the
/// first element of a list the native price is read where the field is
/// there, and the token price only where it is not; in an object the token
/// price is also read where the native price is no text.
pub open spec fn quoted_figure(reply: PriceReplyView) -> Seq<char> {
    let found = match reply {
        PriceReplyView::Listed { ethusd, token_price_usd } => if ethusd is Absent {
            field_text(token_price_usd)
        } else {
            field_text(ethusd)
        },
        PriceReplyView::Single { ethusd, token_price_usd } => if field_text(ethusd) is Some {
            field_text(ethusd)
        } else {
            field_text(token_price_usd)
        },
        PriceReplyView::Other => None,
    };
    match found {
        Some(text) => text,
        None => "0"@,
    }
}

fn text_of(field: &JsonField) -> (text: Option<String>)
    ensures
        text.deep_view() == field_text(field.deep_view()),
{
    match field {
        JsonField::Text(text) => Some(text.clone()),
        _ => None,
    }
}

/// Reads the price figure out of an answer of the price source; an answer
/// that quotes none counts as `0`.
pub fn fetch_price_figure(reply: &PriceReply) -> (figure: String)
    ensures
        figure@ == quoted_figure(reply.deep_view()),
{
    let found = match reply {
        PriceReply::Listed { ethusd, token_price_usd } => match ethusd {
            JsonField::Absent => text_of(token_price_usd),
            _ => text_of(ethusd),
        },
        PriceReply::Single { ethusd, token_price_usd } => match text_of(ethusd) {
            Some(text) => Some(text),
            None => text_of(token_price_usd),
        },
        PriceReply::Other => None,
    };
    match found {
        Some(text) => text,
        None => "0".to_owned(),
    }
}

/// One priced lookup from beginning to end: the prices afterwards, the
/// answer, and the number of calls made to the price source.
pub struct Priced {
    pub prices: Map<Seq<char>, Price>,
    pub answer: Price,
    pub remote_calls: nat,
}

/// A lookup under `key`, where the price source would answer `remote`: a
/// price that is cached is the answer and no call is made; else one call is
/// made, and its answer is recorded and returned.
pub open spec fn priced(prices: Map<Seq<char>, Price>, key: Seq<char>, remote: Price) -> Priced {
    match cached(prices, key) {
        Some(price) => Priced { prices, answer: price, remote_calls: 0 },
        None => Priced { prices: prices.insert(key, remote), answer: remote, remote_calls: 1 },
    }
}

/// Looking a price up twice asks the price source once at most: the second
/// lookup makes no call, gives the answer of the first and leaves the cache
/// as it is. The first lookup makes one call where the price is not cached,
/// and none where it is.
pub proof fn law_second_lookup_is_cached(
    prices: Map<Seq<char>, Price>,
    key: Seq<char>,
    first_remote: Price,
    second_remote: Price,
)
    ensures
        ({
            let first = priced(prices, key, first_remote);
            let second = priced(first.prices, key, second_remote);
            &&& first.remote_calls == if prices.contains_key(key) { 0nat } else { 1nat }
            &&& second.remote_calls == 0
            &&& second.answer == first.answer
            &&& second.prices == first.prices
        }),
{
}

/// What a cache saves, read back into a fresh cache, holds the same prices:
/// every key that was cached is answered as before, without a call to the
/// price source.
pub proof fn law_saved_prices_reload(cache: Cache, key: Seq<char>, remote: Price)
    requires
        cache.wf(),
    ensures
        stored_map(cache.entries()) == cache@,
        cache@.contains_key(key) ==> priced(stored_map(cache.entries()), key, remote) == (Priced {
            prices: cache@,
            answer: cache@[key],
            remote_calls: 0,
        }),
{
    lemma_distinct_entries_store_themselves(cache.prices@);
}

} // verus!
