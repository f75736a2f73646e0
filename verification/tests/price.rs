use arb_gnucash_importer::calendar::Date;
use arb_gnucash_importer::price::{
    fetch_price_figure, fetch_price_query, Cache, JsonField, Price, PriceLookup, PriceReply,
};
use arb_gnucash_importer::primitives::Address;
use std::str::FromStr;

fn price(p: f64) -> Price {
    Price { bits: p.to_bits() }
}

fn day(y: i32, m: u32, d: u32) -> Date {
    Date::from_ymd(y, m, d).unwrap()
}

fn usdc() -> Address {
    Address::from_bytes(
        ethers_core::types::Address::from_str("0xff970a61a04b1ca14834a43f5de4533ebddb5cc8")
            .unwrap()
            .0,
    )
}

fn pairs(query: &[(String, String)]) -> Vec<(&str, &str)> {
    query.iter().map(|(k, v)| (k.as_str(), v.as_str())).collect()
}

#[test]
fn keys_name_the_asset_and_the_day() {
    assert_eq!(Cache::key(None, day(2021, 1, 2)), "eth_2021-01-02");
    assert_eq!(
        Cache::key(Some(usdc()), day(2023, 12, 31)),
        "0xff970a61a04b1ca14834a43f5de4533ebddb5cc8_2023-12-31"
    );
    assert_eq!(
        Cache::key(Some(Address::zero()), day(1999, 10, 9)),
        "0x0000000000000000000000000000000000000000_1999-10-09"
    );
}

#[test]
fn keys_agree_with_the_formatting_of_the_outside_types() {
    let address = ethers_core::types::Address::from_low_u64_be(0xdead_beef_0102);
    let date = chrono::NaiveDate::from_ymd_opt(2024, 2, 29).unwrap();
    assert_eq!(
        Cache::key(Some(Address::from_bytes(address.0)), day(2024, 2, 29)),
        format!("{address:?}_{}", date)
    );
    assert_eq!(Cache::key(None, day(2024, 2, 29)), format!("eth_{}", date));
}

#[test]
fn second_lookup_is_answered_from_the_cache() {
    let mut cache = Cache::new(None);
    let date = day(2022, 5, 6);
    let mut remote_calls = 0;
    let first = match cache.price(Some(usdc()), date) {
        PriceLookup::Cached(p) => p,
        PriceLookup::Missing(_) => {
            remote_calls += 1;
            cache.insert_price(Some(usdc()), date, price(1.0001));
            price(1.0001)
        }
    };
    let second = match cache.price(Some(usdc()), date) {
        PriceLookup::Cached(p) => p,
        PriceLookup::Missing(_) => {
            remote_calls += 1;
            cache.insert_price(Some(usdc()), date, price(2.5));
            price(2.5)
        }
    };
    assert_eq!(remote_calls, 1);
    assert_eq!(first, second);
    assert_eq!(f64::from_bits(second.bits), 1.0001);
}

#[test]
fn lookups_tell_assets_and_days_apart() {
    let mut cache = Cache::new(None);
    cache.insert_price(None, day(2022, 5, 6), price(1800.0));
    assert_eq!(cache.get(None, day(2022, 5, 6)), Some(price(1800.0)));
    assert_eq!(cache.get(None, day(2022, 5, 7)), None);
    assert_eq!(cache.get(Some(usdc()), day(2022, 5, 6)), None);
    cache.insert_price(Some(usdc()), day(2022, 5, 6), price(1.0));
    cache.insert_price(None, day(2022, 5, 6), price(1900.0));
    assert_eq!(cache.get(None, day(2022, 5, 6)), Some(price(1900.0)));
    assert_eq!(cache.get(Some(usdc()), day(2022, 5, 6)), Some(price(1.0)));
}

#[test]
fn saved_prices_reload_into_a_fresh_cache() {
    let mut cache = Cache::load("prices.json".to_string(), None, Some("k".to_string()));
    let days = [day(2020, 1, 1), day(2020, 1, 2), day(2021, 6, 30)];
    for (i, d) in days.iter().enumerate() {
        cache.insert_price(None, *d, price(1000.0 + i as f64));
        cache.insert_price(Some(usdc()), *d, price(1.0 + i as f64 / 100.0));
    }
    cache.insert_price(None, days[1], price(4242.0));
    let (path, stored) = cache.save().unwrap();
    assert_eq!(path, "prices.json");
    assert_eq!(stored.len(), 6);
    let mut keys: Vec<&str> = stored.iter().map(|(k, _)| k.as_str()).collect();
    keys.sort();
    keys.dedup();
    assert_eq!(keys.len(), 6);

    let fresh = Cache::load(path, Some(stored), None);
    for d in days {
        assert_eq!(fresh.get(None, d), cache.get(None, d));
        assert_eq!(fresh.get(Some(usdc()), d), cache.get(Some(usdc()), d));
        assert!(matches!(fresh.price(None, d), PriceLookup::Cached(_)));
        assert!(matches!(fresh.price(Some(usdc()), d), PriceLookup::Cached(_)));
    }
    assert_eq!(fresh.get(None, days[1]), Some(price(4242.0)));
    assert_eq!(fresh.get(None, day(2019, 1, 1)), None);
}

#[test]
fn a_cache_without_path_saves_nothing() {
    let mut cache = Cache::new(Some("key".to_string()));
    cache.insert_price(None, day(2020, 1, 1), price(1.0));
    assert!(cache.save().is_none());
    assert_eq!(cache.api_key(), Some("key"));
}

#[test]
fn missing_stored_state_gives_an_empty_cache() {
    let cache = Cache::load("nowhere.json".to_string(), None, None);
    assert_eq!(cache.get(None, day(2020, 1, 1)), None);
    assert_eq!(cache.api_key(), None);
    let (path, stored) = cache.save().unwrap();
    assert_eq!(path, "nowhere.json");
    assert!(stored.is_empty());
}

#[test]
fn of_two_stored_prices_for_one_key_the_later_counts() {
    let stored = vec![
        ("eth_2020-01-01".to_string(), price(1.0)),
        ("odd key".to_string(), price(7.0)),
        ("eth_2020-01-01".to_string(), price(2.0)),
    ];
    let cache = Cache::load("p".to_string(), Some(stored), None);
    assert_eq!(cache.get(None, day(2020, 1, 1)), Some(price(2.0)));
    let (_, saved) = cache.save().unwrap();
    assert_eq!(saved.len(), 2);
    assert!(saved.contains(&("odd key".to_string(), price(7.0))));
    assert!(saved.contains(&("eth_2020-01-01".to_string(), price(2.0))));
}

#[test]
fn query_for_the_native_asset() {
    let query = fetch_price_query(None, None, day(2021, 3, 4));
    assert_eq!(
        pairs(&query),
        vec![("module", "stats"), ("action", "ethdailyprice"), ("date", "2021-03-04")]
    );
}

#[test]
fn query_for_a_token_with_key() {
    let query = fetch_price_query(Some("my-key"), Some(usdc()), day(2021, 11, 30));
    assert_eq!(
        pairs(&query),
        vec![
            ("module", "stats"),
            ("action", "tokenpricehistory"),
            ("contractaddress", "0xff970a61a04b1ca14834a43f5de4533ebddb5cc8"),
            ("date", "2021-11-30"),
            ("apikey", "my-key"),
        ]
    );
}

#[test]
fn a_miss_hands_out_the_query_with_the_caches_key() {
    let cache = Cache::new(Some("abc".to_string()));
    match cache.price(None, day(2020, 2, 2)) {
        PriceLookup::Missing(query) => assert_eq!(
            pairs(&query),
            vec![
                ("module", "stats"),
                ("action", "ethdailyprice"),
                ("date", "2020-02-02"),
                ("apikey", "abc"),
            ]
        ),
        PriceLookup::Cached(_) => panic!("nothing was cached"),
    }
}

fn text(s: &str) -> JsonField {
    JsonField::Text(s.to_string())
}

#[test]
fn figure_of_a_listed_answer() {
    let reply = PriceReply::Listed { ethusd: text("1834.21"), token_price_usd: text("9") };
    assert_eq!(fetch_price_figure(&reply), "1834.21");
    let reply = PriceReply::Listed { ethusd: JsonField::Absent, token_price_usd: text("0.9998") };
    assert_eq!(fetch_price_figure(&reply), "0.9998");
    let reply = PriceReply::Listed { ethusd: JsonField::NotText, token_price_usd: text("0.9998") };
    assert_eq!(fetch_price_figure(&reply), "0");
    let reply =
        PriceReply::Listed { ethusd: JsonField::Absent, token_price_usd: JsonField::NotText };
    assert_eq!(fetch_price_figure(&reply), "0");
    let reply = PriceReply::Listed { ethusd: JsonField::Absent, token_price_usd: JsonField::Absent };
    assert_eq!(fetch_price_figure(&reply), "0");
}

#[test]
fn figure_of_a_single_answer() {
    let reply = PriceReply::Single { ethusd: text("1834.21"), token_price_usd: text("9") };
    assert_eq!(fetch_price_figure(&reply), "1834.21");
    let reply = PriceReply::Single { ethusd: JsonField::NotText, token_price_usd: text("0.5") };
    assert_eq!(fetch_price_figure(&reply), "0.5");
    let reply = PriceReply::Single { ethusd: JsonField::Absent, token_price_usd: text("0.5") };
    assert_eq!(fetch_price_figure(&reply), "0.5");
    let reply = PriceReply::Single { ethusd: JsonField::Absent, token_price_usd: JsonField::Absent };
    assert_eq!(fetch_price_figure(&reply), "0");
    assert_eq!(fetch_price_figure(&PriceReply::Other), "0");
}

#[test]
fn figure_is_handed_out_as_it_is_even_where_it_is_no_number() {
    let reply = PriceReply::Single { ethusd: text("n/a"), token_price_usd: text("1") };
    assert_eq!(fetch_price_figure(&reply), "n/a");
    assert_eq!(fetch_price_figure(&reply).parse::<f64>().unwrap_or(0.0), 0.0);
}
