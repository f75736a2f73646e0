use arb_gnucash_importer::blockchain::{
    apply_categories, events_request, fetch_transactions, transactions_request, Categories,
    CategoryEntry, Config, ConfigSource, Erc20TokenTransferEvent, Erc20Transfer, FileFormat,
    NormalTransaction, TokenQueryOption, Transaction, TxSource,
};
use arb_gnucash_importer::merge::{group_transfers, merge_transfers};
use arb_gnucash_importer::pagination::{FetchError, Pager, Sort, TxListParams, PAGE_SIZE};
use arb_gnucash_importer::primitives::{Address, H256, U256};
use std::cell::RefCell;

struct MockClient {
    tx_pages: Vec<Vec<NormalTransaction>>,
    event_pages: Vec<Vec<Erc20TokenTransferEvent>>,
    tx_requests: RefCell<Vec<TxListParams>>,
    event_requests: RefCell<Vec<TxListParams>>,
    asked_addresses: RefCell<Vec<Address>>,
    asked_options: RefCell<Vec<TokenQueryOption>>,
}

fn mock(
    tx_pages: Vec<Vec<NormalTransaction>>,
    event_pages: Vec<Vec<Erc20TokenTransferEvent>>,
) -> MockClient {
    MockClient {
        tx_pages,
        event_pages,
        tx_requests: RefCell::new(Vec::new()),
        event_requests: RefCell::new(Vec::new()),
        asked_addresses: RefCell::new(Vec::new()),
        asked_options: RefCell::new(Vec::new()),
    }
}

fn copy_tx(tx: &NormalTransaction) -> NormalTransaction {
    NormalTransaction {
        hash: tx.hash,
        from: tx.from,
        to: tx.to,
        block_number: tx.block_number,
        time_stamp: tx.time_stamp.clone(),
        value: tx.value,
    }
}

fn copy_event(ev: &Erc20TokenTransferEvent) -> Erc20TokenTransferEvent {
    Erc20TokenTransferEvent {
        hash: ev.hash,
        from: ev.from,
        contract_address: ev.contract_address,
        to: ev.to,
        value: ev.value,
        token_name: ev.token_name.clone(),
        token_symbol: ev.token_symbol.clone(),
        token_decimal: ev.token_decimal.clone(),
    }
}

impl TxSource for MockClient {
    fn get_transactions(
        &self,
        address: &Address,
        params: Option<TxListParams>,
    ) -> Result<Vec<NormalTransaction>, FetchError> {
        let params = params.unwrap();
        self.asked_addresses.borrow_mut().push(*address);
        self.tx_requests.borrow_mut().push(params);
        let page = params.page as usize;
        Ok(self.tx_pages.get(page - 1).map(|p| p.iter().map(copy_tx).collect()).unwrap_or_default())
    }

    fn get_erc20_token_transfer_events(
        &self,
        option: TokenQueryOption,
        params: Option<TxListParams>,
    ) -> Result<Vec<Erc20TokenTransferEvent>, FetchError> {
        let params = params.unwrap();
        self.asked_options.borrow_mut().push(option);
        self.event_requests.borrow_mut().push(params);
        let page = params.page as usize;
        Ok(self
            .event_pages
            .get(page - 1)
            .map(|p| p.iter().map(copy_event).collect())
            .unwrap_or_default())
    }
}

struct FailingClient {
    fail_on_events: bool,
}

impl TxSource for FailingClient {
    fn get_transactions(
        &self,
        _address: &Address,
        params: Option<TxListParams>,
    ) -> Result<Vec<NormalTransaction>, FetchError> {
        if self.fail_on_events {
            if params.unwrap().page == 1 {
                Ok(vec![make_tx(hash_of(1))])
            } else {
                Ok(Vec::new())
            }
        } else {
            Err(FetchError::Source("connection refused".to_string()))
        }
    }

    fn get_erc20_token_transfer_events(
        &self,
        _option: TokenQueryOption,
        _params: Option<TxListParams>,
    ) -> Result<Vec<Erc20TokenTransferEvent>, FetchError> {
        Err(FetchError::Source("rate limited".to_string()))
    }
}

fn hash_of(n: u64) -> H256 {
    let mut bytes = [0u8; 32];
    bytes[24..].copy_from_slice(&n.to_be_bytes());
    H256::from_bytes(bytes)
}

fn make_tx(hash: H256) -> NormalTransaction {
    NormalTransaction {
        hash: Some(hash),
        from: Some(Address::zero()),
        to: Some(Address::zero()),
        block_number: Some(1),
        time_stamp: "1".to_string(),
        value: U256::zero(),
    }
}

fn make_event(hash: H256) -> Erc20TokenTransferEvent {
    Erc20TokenTransferEvent {
        hash,
        from: Address::zero(),
        contract_address: Address::zero(),
        to: Some(Address::zero()),
        value: U256::one(),
        token_name: "T".to_string(),
        token_symbol: "T".to_string(),
        token_decimal: "18".to_string(),
    }
}

#[test]
fn transaction_with_transfer() {
    let transfer = Erc20Transfer {
        token_contract: Address::zero(),
        from: Address::zero(),
        to: Some(Address::zero()),
        value: U256::from_u64(1u64),
        token_name: "TEST".to_string(),
        token_symbol: "TST".to_string(),
        token_decimal: "18".to_string(),
    };

    let tx = Transaction {
        hash: H256::zero(),
        block_number: 1,
        timestamp: 0,
        from: Address::zero(),
        to: None,
        value: U256::zero(),
        tag: None,
        category: None,
        description: None,
        transfers: vec![transfer.clone()],
    };

    assert_eq!(tx.transfers.len(), 1);
    assert_eq!(tx.transfers[0].token_symbol, transfer.token_symbol);
}

#[test]
fn apply_categories_assigns_values() {
    let mut txs = vec![Transaction {
        hash: H256::zero(),
        block_number: 0,
        timestamp: 0,
        from: Address::repeat_byte(0x11),
        to: Some(Address::repeat_byte(0x22)),
        value: U256::zero(),
        tag: None,
        category: None,
        description: None,
        transfers: Vec::new(),
    }];

    let mut cats = Categories::new();
    cats.insert(
        Address::repeat_byte(0x11),
        CategoryEntry { category: "Deposit".to_string(), description: None },
    );
    cats.insert(
        Address::repeat_byte(0x22),
        CategoryEntry { category: "Withdrawal".to_string(), description: Some("Foo".to_string()) },
    );

    apply_categories(&mut txs, &cats);

    assert_eq!(txs[0].category.as_deref(), Some("Withdrawal"));
    assert_eq!(txs[0].description.as_deref(), Some("Foo"));
}

#[test]
fn fetch_transactions_paginates() {
    let tx1 = make_tx(hash_of(1));
    let tx2 = make_tx(hash_of(2));
    let mock = mock(vec![vec![tx1], vec![tx2]], vec![]);

    let res = fetch_transactions(&mock, Address::zero()).unwrap();
    assert_eq!(res.len(), 2);
    assert_eq!(res[0].hash, hash_of(1));
    assert_eq!(res[1].hash, hash_of(2));
}

#[test]
fn fetch_transactions_paginates_events() {
    let hash = hash_of(1);
    let tx = make_tx(hash);
    let ev1 = make_event(hash);
    let mut ev2 = make_event(hash);
    ev2.value = U256::from_u64(2u64);
    let mock = mock(vec![vec![tx]], vec![vec![ev1], vec![ev2]]);

    let res = fetch_transactions(&mock, Address::zero()).unwrap();
    assert_eq!(res[0].transfers.len(), 2);
}

#[test]
fn fetch_issues_one_request_more_than_full_pages() {
    let pages: Vec<Vec<NormalTransaction>> =
        (1..=3u64).map(|p| vec![make_tx(hash_of(10 * p)), make_tx(hash_of(10 * p + 1))]).collect();
    let mock = mock(pages, vec![vec![make_event(hash_of(21))]]);

    let res = fetch_transactions(&mock, Address::repeat_byte(7)).unwrap();
    let hashes: Vec<H256> = res.iter().map(|t| t.hash).collect();
    assert_eq!(
        hashes,
        vec![hash_of(10), hash_of(11), hash_of(20), hash_of(21), hash_of(30), hash_of(31)]
    );
    let asked: Vec<u64> = mock.tx_requests.borrow().iter().map(|p| p.page).collect();
    assert_eq!(asked, vec![1, 2, 3, 4]);
    let asked_events: Vec<u64> = mock.event_requests.borrow().iter().map(|p| p.page).collect();
    assert_eq!(asked_events, vec![1, 2]);
    for params in mock.tx_requests.borrow().iter() {
        assert_eq!(params.offset, 100);
        assert_eq!(params.start_block, 0);
        assert_eq!(params.end_block, 99999999);
        assert_eq!(params.sort, Sort::Asc);
    }
    assert_eq!(res[3].transfers.len(), 1);
    assert!(res.iter().enumerate().all(|(i, t)| i == 3 || t.transfers.is_empty()));
}

#[test]
fn fetch_fails_when_first_stream_fails() {
    let res = fetch_transactions(&FailingClient { fail_on_events: false }, Address::zero());
    assert_eq!(res.unwrap_err(), FetchError::Source("connection refused".to_string()));
}

#[test]
fn fetch_fails_when_second_stream_fails() {
    let res = fetch_transactions(&FailingClient { fail_on_events: true }, Address::zero());
    assert_eq!(res.unwrap_err(), FetchError::Source("rate limited".to_string()));
}

#[test]
fn fetch_of_empty_history_is_empty() {
    let mock = mock(vec![], vec![]);
    let res = fetch_transactions(&mock, Address::zero()).unwrap();
    assert!(res.is_empty());
    assert_eq!(mock.tx_requests.borrow().len(), 1);
    assert_eq!(mock.event_requests.borrow().len(), 1);
}

#[test]
fn pager_asks_for_pages_in_turn_until_an_empty_one() {
    let mut pager: Pager<u32> = Pager::new();
    let first = pager.request().unwrap();
    assert_eq!(first.page, 1);
    assert_eq!(first.offset, PAGE_SIZE);
    assert_eq!(first.start_block, 0);
    assert_eq!(first.end_block, 99999999);
    assert_eq!(first.sort, Sort::Asc);
    assert_eq!(pager.accept(vec![1, 2]), Ok(()));
    assert_eq!(pager.request().unwrap().page, 2);
    assert_eq!(pager.accept(vec![3]), Ok(()));
    assert_eq!(pager.request().unwrap().page, 3);
    assert!(!pager.is_done());
    assert_eq!(pager.accept(vec![]), Ok(()));
    assert!(pager.is_done());
    assert_eq!(pager.request(), None);
    assert_eq!(pager.accept(vec![9]), Ok(()));
    assert_eq!(pager.into_items(), vec![1, 2, 3]);
}

#[test]
fn merge_drops_records_without_hash_or_sender() {
    let mut no_hash = make_tx(hash_of(1));
    no_hash.hash = None;
    let mut no_sender = make_tx(hash_of(2));
    no_sender.from = None;
    let kept = make_tx(hash_of(2));
    let out = merge_transfers(vec![no_hash, no_sender, kept], vec![make_event(hash_of(2))]);
    assert_eq!(out.len(), 1);
    assert_eq!(out[0].hash, hash_of(2));
    assert_eq!(out[0].transfers.len(), 1);
}

#[test]
fn merge_keeps_order_and_hands_each_group_out_once() {
    let a = hash_of(1);
    let b = hash_of(2);
    let mut ev_a1 = make_event(a);
    ev_a1.token_symbol = "A1".to_string();
    let mut ev_b = make_event(b);
    ev_b.token_symbol = "B".to_string();
    let mut ev_a2 = make_event(a);
    ev_a2.token_symbol = "A2".to_string();
    let ev_other = make_event(hash_of(99));
    let out = merge_transfers(
        vec![make_tx(b), make_tx(a), make_tx(a), make_tx(hash_of(3))],
        vec![ev_a1, ev_b, ev_other, ev_a2],
    );
    assert_eq!(out.len(), 4);
    assert_eq!(out[0].hash, b);
    let symbols = |t: &Transaction| -> Vec<String> {
        t.transfers.iter().map(|x| x.token_symbol.clone()).collect()
    };
    assert_eq!(symbols(&out[0]), vec!["B".to_string()]);
    assert_eq!(symbols(&out[1]), vec!["A1".to_string(), "A2".to_string()]);
    assert!(out[2].transfers.is_empty());
    assert!(out[3].transfers.is_empty());
}

#[test]
fn merge_reads_block_number_and_timestamp() {
    let mut tx = make_tx(hash_of(5));
    tx.block_number = Some(1234);
    tx.time_stamp = "1700000000".to_string();
    tx.to = None;
    tx.value = U256::from_u64(77);
    tx.from = Some(Address::repeat_byte(3));
    let mut pending = make_tx(hash_of(6));
    pending.block_number = None;
    pending.time_stamp = "soon".to_string();
    let mut plus = make_tx(hash_of(7));
    plus.time_stamp = "+0012".to_string();
    let mut empty = make_tx(hash_of(8));
    empty.time_stamp = String::new();
    let mut huge = make_tx(hash_of(9));
    huge.time_stamp = "18446744073709551616".to_string();
    let mut max = make_tx(hash_of(10));
    max.time_stamp = "18446744073709551615".to_string();
    let mut negative = make_tx(hash_of(11));
    negative.time_stamp = "-1".to_string();
    let out = merge_transfers(vec![tx, pending, plus, empty, huge, max, negative], vec![]);
    assert_eq!(out[0].block_number, 1234);
    assert_eq!(out[0].timestamp, 1700000000);
    assert_eq!(out[0].to, None);
    assert_eq!(out[0].from, Address::repeat_byte(3));
    assert_eq!(out[0].value.limbs, [77, 0, 0, 0]);
    assert_eq!(out[0].tag, None);
    assert_eq!(out[0].category, None);
    assert_eq!(out[0].description, None);
    assert_eq!(out[1].block_number, 0);
    assert_eq!(out[1].timestamp, 0);
    assert_eq!(out[2].timestamp, 12);
    assert_eq!(out[3].timestamp, 0);
    assert_eq!(out[4].timestamp, 0);
    assert_eq!(out[5].timestamp, u64::MAX);
    assert_eq!(out[6].timestamp, 0);
}

#[test]
fn transfers_stay_under_the_hash_they_were_collected_under() {
    let events: Vec<Erc20TokenTransferEvent> = (0..12u64)
        .map(|i| {
            let mut ev = make_event(hash_of(i % 4));
            ev.token_name = format!("{}", i % 4);
            ev.value = U256::from_u64(i);
            ev
        })
        .collect();
    let txs: Vec<NormalTransaction> = (0..6u64).map(|i| make_tx(hash_of(i))).collect();
    let out = merge_transfers(txs, events);
    for (i, tx) in out.iter().enumerate() {
        assert_eq!(tx.hash, hash_of(i as u64));
        assert_eq!(tx.transfers.len(), if i < 4 { 3 } else { 0 });
        for tr in &tx.transfers {
            assert_eq!(tr.token_name, format!("{}", i));
        }
        let values: Vec<u64> = tx.transfers.iter().map(|t| t.value.limbs[0]).collect();
        if i < 4 {
            assert_eq!(values, vec![i as u64, i as u64 + 4, i as u64 + 8]);
        }
    }
}

#[test]
fn grouping_takes_a_group_out_once() {
    let mut groups = group_transfers(vec![make_event(hash_of(1)), make_event(hash_of(1))]);
    assert!(groups.remove(&hash_of(2)).is_none());
    assert_eq!(groups.remove(&hash_of(1)).map(|g| g.len()), Some(2));
    assert!(groups.remove(&hash_of(1)).is_none());
}

fn plain_tx(from: Address, to: Option<Address>) -> Transaction {
    Transaction {
        hash: H256::zero(),
        block_number: 0,
        timestamp: 0,
        from,
        to,
        value: U256::zero(),
        tag: None,
        category: None,
        description: None,
        transfers: Vec::new(),
    }
}

#[test]
fn sender_entry_is_used_when_recipient_has_none() {
    let sender = Address::repeat_byte(0x11);
    let recipient = Address::repeat_byte(0x22);
    let mut cats = Categories::new();
    cats.insert(sender, CategoryEntry { category: "Salary".to_string(), description: None });
    let mut txs = vec![plain_tx(sender, Some(recipient)), plain_tx(sender, None)];
    txs[0].description = Some("kept?".to_string());
    apply_categories(&mut txs, &cats);
    assert_eq!(txs[0].category.as_deref(), Some("Salary"));
    assert_eq!(txs[0].description, None);
    assert_eq!(txs[1].category.as_deref(), Some("Salary"));
}

#[test]
fn transactions_without_entry_stay_as_they_are() {
    let mut cats = Categories::new();
    cats.insert(
        Address::repeat_byte(0x33),
        CategoryEntry { category: "Other".to_string(), description: None },
    );
    let mut txs = vec![plain_tx(Address::repeat_byte(0x11), Some(Address::repeat_byte(0x22)))];
    txs[0].category = Some("Before".to_string());
    apply_categories(&mut txs, &cats);
    assert_eq!(txs[0].category.as_deref(), Some("Before"));
    assert_eq!(txs[0].tag, None);
    assert_eq!(txs[0].description, None);
}

#[test]
fn tag_entries_set_the_tag_and_recipient_wins() {
    let sender = Address::repeat_byte(0x11);
    let recipient = Address::repeat_byte(0x22);
    let mut cats = Categories::new();
    cats.insert_tag(sender, "alice".to_string());
    cats.insert_tag(recipient, "bob".to_string());
    let mut txs = vec![plain_tx(sender, Some(recipient)), plain_tx(sender, Some(sender))];
    apply_categories(&mut txs, &cats);
    assert_eq!(txs[0].tag.as_deref(), Some("bob"));
    assert_eq!(txs[0].category, None);
    assert_eq!(txs[1].tag.as_deref(), Some("alice"));
}

#[test]
fn later_entry_for_an_address_replaces_the_earlier() {
    let who = Address::repeat_byte(0x44);
    let mut cats = Categories::new();
    cats.insert(who, CategoryEntry { category: "Old".to_string(), description: None });
    cats.insert_tag(who, "new".to_string());
    let mut txs = vec![plain_tx(who, None)];
    apply_categories(&mut txs, &cats);
    assert_eq!(txs[0].category, None);
    assert_eq!(txs[0].tag.as_deref(), Some("new"));
}

#[test]
fn load_prefers_the_richer_shape() {
    let who = Address::repeat_byte(0x55);
    let rich =
        vec![(who, CategoryEntry { category: "Rent".to_string(), description: Some("flat".to_string()) })];
    let legacy = vec![(who, "landlord".to_string())];
    let cats = Categories::load(Some(rich), Ok(legacy)).unwrap();
    let mut txs = vec![plain_tx(who, None)];
    apply_categories(&mut txs, &cats);
    assert_eq!(txs[0].category.as_deref(), Some("Rent"));
    assert_eq!(txs[0].description.as_deref(), Some("flat"));
    assert_eq!(txs[0].tag, None);
}

#[test]
fn load_falls_back_to_tags() {
    let who = Address::repeat_byte(0x55);
    let cats = Categories::load(None, Ok(vec![(who, "landlord".to_string())])).unwrap();
    let mut txs = vec![plain_tx(Address::zero(), Some(who))];
    apply_categories(&mut txs, &cats);
    assert_eq!(txs[0].tag.as_deref(), Some("landlord"));
    assert_eq!(txs[0].category, None);
}

#[test]
fn load_refuses_a_file_of_neither_shape() {
    let err = Categories::load(None, Err("expected a map".to_string())).unwrap_err();
    assert_eq!(err.message, "expected a map");
}

#[test]
fn a_stream_cannot_run_past_the_last_page_number() {
    let mut pager: Pager<u8> = Pager::starting_at(u64::MAX - 1);
    assert_eq!(pager.request().unwrap().page, u64::MAX - 1);
    assert_eq!(pager.accept(vec![1]), Ok(()));
    assert_eq!(pager.request().unwrap().page, u64::MAX);
    assert_eq!(pager.accept(vec![2]), Err(FetchError::PageOverflow));
    assert_eq!(pager.request().unwrap().page, u64::MAX);
    assert!(!pager.is_done());
    assert_eq!(pager.accept(vec![]), Ok(()));
    assert!(pager.is_done());
    assert_eq!(pager.into_items(), vec![1]);
}

#[test]
fn configuration_from_the_environment_comes_first() {
    match Config::load(Some("http://node".to_string()), Some("key".to_string()), Some("my.toml")) {
        ConfigSource::Environment(config) => {
            assert_eq!(config.rpc_url, "http://node");
            assert_eq!(config.etherscan_api_key.as_deref(), Some("key"));
        }
        ConfigSource::File { .. } => panic!("the environment was set"),
    }
    match Config::load(Some("http://node".to_string()), None, None) {
        ConfigSource::Environment(config) => assert_eq!(config.etherscan_api_key, None),
        ConfigSource::File { .. } => panic!("the environment was set"),
    }
}

#[test]
fn configuration_falls_back_to_a_file() {
    match Config::load(None, Some("ignored".to_string()), Some("my.toml")) {
        ConfigSource::File { path } => assert_eq!(path, "my.toml"),
        ConfigSource::Environment(_) => panic!("the environment was not set"),
    }
    match Config::load(None, None, None) {
        ConfigSource::File { path } => assert_eq!(path, "config.yml"),
        ConfigSource::Environment(_) => panic!("the environment was not set"),
    }
}

#[test]
fn formats_follow_the_extension() {
    assert_eq!(Config::format(Some("json")), FileFormat::Json);
    assert_eq!(Config::format(Some("yaml")), FileFormat::Yaml);
    assert_eq!(Config::format(Some("yml")), FileFormat::Yaml);
    assert_eq!(Config::format(Some("toml")), FileFormat::Toml);
    assert_eq!(Config::format(Some("txt")), FileFormat::Toml);
    assert_eq!(Config::format(Some("JSON")), FileFormat::Toml);
    assert_eq!(Config::format(Some("")), FileFormat::Toml);
    assert_eq!(Config::format(None), FileFormat::Yaml);
    assert_eq!(Categories::format(Some("json")), FileFormat::Json);
    assert_eq!(Categories::format(Some("toml")), FileFormat::Toml);
    assert_eq!(Categories::format(Some("yaml")), FileFormat::Yaml);
    assert_eq!(Categories::format(Some("yml")), FileFormat::Yaml);
    assert_eq!(Categories::format(Some("txt")), FileFormat::Yaml);
    assert_eq!(Categories::format(None), FileFormat::Yaml);
}

#[test]
fn a_copy_of_a_transaction_holds_the_same() {
    let mut tx = plain_tx(Address::repeat_byte(1), Some(Address::repeat_byte(2)));
    tx.tag = Some("t".to_string());
    tx.category = Some("c".to_string());
    tx.description = Some("d".to_string());
    tx.value = U256::from_u64(9);
    tx.timestamp = 5;
    tx.block_number = 6;
    tx.transfers.push(Erc20Transfer {
        token_contract: Address::repeat_byte(3),
        from: Address::repeat_byte(4),
        to: None,
        value: U256::from_u64(8),
        token_name: "N".to_string(),
        token_symbol: "S".to_string(),
        token_decimal: "2".to_string(),
    });
    let copy = tx.clone();
    assert_eq!(format!("{:?}", copy), format!("{:?}", tx));
    assert_eq!(copy.transfers.len(), 1);
    assert_eq!(copy.transfers[0].token_name, "N");
}

struct FailsLater {
    fail_events: bool,
    tx_calls: RefCell<u64>,
    event_calls: RefCell<u64>,
}

impl TxSource for FailsLater {
    fn get_transactions(
        &self,
        _address: &Address,
        params: Option<TxListParams>,
    ) -> Result<Vec<NormalTransaction>, FetchError> {
        *self.tx_calls.borrow_mut() += 1;
        match params.unwrap().page {
            1 | 2 => Ok(vec![make_tx(hash_of(1))]),
            3 if !self.fail_events => Err(FetchError::Source("page 3 failed".to_string())),
            _ => Ok(Vec::new()),
        }
    }

    fn get_erc20_token_transfer_events(
        &self,
        _option: TokenQueryOption,
        params: Option<TxListParams>,
    ) -> Result<Vec<Erc20TokenTransferEvent>, FetchError> {
        *self.event_calls.borrow_mut() += 1;
        match params.unwrap().page {
            1 => Ok(vec![make_event(hash_of(1))]),
            _ => Err(FetchError::Source("events page 2 failed".to_string())),
        }
    }
}

#[test]
fn a_failure_on_a_later_page_fails_the_fetch_with_nothing_returned() {
    let source =
        FailsLater { fail_events: false, tx_calls: RefCell::new(0), event_calls: RefCell::new(0) };
    let res = fetch_transactions(&source, Address::zero());
    assert_eq!(res.unwrap_err(), FetchError::Source("page 3 failed".to_string()));
    assert_eq!(*source.tx_calls.borrow(), 3);
    assert_eq!(*source.event_calls.borrow(), 0);
}

#[test]
fn a_failure_of_the_event_stream_fails_the_fetch_with_nothing_returned() {
    let source =
        FailsLater { fail_events: true, tx_calls: RefCell::new(0), event_calls: RefCell::new(0) };
    let res = fetch_transactions(&source, Address::zero());
    assert_eq!(res.unwrap_err(), FetchError::Source("events page 2 failed".to_string()));
    assert_eq!(*source.tx_calls.borrow(), 3);
    assert_eq!(*source.event_calls.borrow(), 2);
}

#[test]
fn fetch_hands_the_address_to_both_streams() {
    let who = Address::repeat_byte(0x5a);
    let mock = mock(vec![vec![make_tx(hash_of(1))]], vec![vec![make_event(hash_of(1))]]);
    fetch_transactions(&mock, who).unwrap();
    assert_eq!(*mock.asked_addresses.borrow(), vec![who, who]);
    let options = mock.asked_options.borrow();
    assert_eq!(options.len(), 2);
    for option in options.iter() {
        assert!(matches!(option, TokenQueryOption::ByAddress(a) if *a == who));
    }
}

#[test]
fn requests_name_the_address_and_the_page() {
    let who = Address::repeat_byte(0x5a);
    let mut txs: Pager<NormalTransaction> = Pager::new();
    let (address, params) = transactions_request(who, &txs).unwrap();
    assert_eq!(address, who);
    assert_eq!((params.page, params.offset), (1, 100));
    assert_eq!(txs.answer(Ok(vec![make_tx(hash_of(1))])), Ok(()));
    let (address, params) = transactions_request(who, &txs).unwrap();
    assert_eq!(address, who);
    assert_eq!(params.page, 2);
    assert_eq!(txs.answer(Ok(Vec::new())), Ok(()));
    assert!(transactions_request(who, &txs).is_none());

    let mut events: Pager<Erc20TokenTransferEvent> = Pager::new();
    let (option, params) = events_request(who, &events).unwrap();
    assert!(matches!(option, TokenQueryOption::ByAddress(a) if a == who));
    assert_eq!((params.page, params.offset), (1, 100));
    assert_eq!(events.answer(Ok(Vec::new())), Ok(()));
    assert!(events_request(who, &events).is_none());
}

#[test]
fn a_failed_answer_is_handed_on_and_leaves_the_walk_where_it_was() {
    let mut pager: Pager<u8> = Pager::new();
    assert_eq!(pager.answer(Ok(vec![1, 2])), Ok(()));
    let failure = FetchError::Source("timeout".to_string());
    assert_eq!(pager.answer(Err(failure.clone())), Err(failure));
    assert_eq!(pager.request().unwrap().page, 2);
    assert!(!pager.is_done());
    assert_eq!(pager.answer(Ok(vec![3])), Ok(()));
    assert_eq!(pager.request().unwrap().page, 3);
    assert_eq!(pager.answer(Ok(Vec::new())), Ok(()));
    assert_eq!(pager.into_items(), vec![1, 2, 3]);

    let mut last: Pager<u8> = Pager::starting_at(u64::MAX);
    assert_eq!(last.answer(Ok(vec![1])), Err(FetchError::PageOverflow));
    assert_eq!(last.request().unwrap().page, u64::MAX);
}

const SAMPLE_TOML: &str = "rpc_url = \"https://arb1.arbitrum.io/rpc\"\netherscan_api_key = \"abc\"\n";

const SAMPLE_YAML: &str = "rpc_url: https://arb1.arbitrum.io/rpc\n";

fn load_sample(path: &str, contents: &str) -> Result<Config, String> {
    let path = match Config::load(None, None, Some(path)) {
        ConfigSource::File { path } => path,
        ConfigSource::Environment(_) => return Err("the environment was not set".to_string()),
    };
    let extension = std::path::Path::new(&path).extension().and_then(|e| e.to_str());
    let text = |v: Option<&str>| v.map(|s| s.to_string());
    let (rpc_url, etherscan_api_key) = match Config::format(extension) {
        FileFormat::Toml => {
            let table = contents.parse::<toml::Table>().map_err(|e| e.to_string())?;
            (
                text(table.get("rpc_url").and_then(|v| v.as_str())),
                text(table.get("etherscan_api_key").and_then(|v| v.as_str())),
            )
        }
        FileFormat::Yaml => {
            let value: serde_yaml::Value =
                serde_yaml::from_str(contents).map_err(|e| e.to_string())?;
            (
                text(value.get("rpc_url").and_then(|v| v.as_str())),
                text(value.get("etherscan_api_key").and_then(|v| v.as_str())),
            )
        }
        FileFormat::Json => {
            let value: serde_json::Value =
                serde_json::from_str(contents).map_err(|e| e.to_string())?;
            (
                text(value.get("rpc_url").and_then(|v| v.as_str())),
                text(value.get("etherscan_api_key").and_then(|v| v.as_str())),
            )
        }
    };
    Ok(Config { rpc_url: rpc_url.ok_or("missing field `rpc_url`")?, etherscan_api_key })
}

#[test]
fn config_loads_toml_and_yaml() {
    let toml_cfg = load_sample("../examples/config.sample.toml", SAMPLE_TOML).expect("load toml");
    let yaml_cfg = load_sample("../examples/config.sample.yml", SAMPLE_YAML).expect("load yaml");
    assert_eq!(toml_cfg.rpc_url, yaml_cfg.rpc_url);
    assert_eq!(toml_cfg.rpc_url, "https://arb1.arbitrum.io/rpc");
    assert_eq!(toml_cfg.etherscan_api_key.as_deref(), Some("abc"));
    assert_eq!(yaml_cfg.etherscan_api_key, None);
    assert!(load_sample("../examples/config.sample.yml", SAMPLE_TOML).is_err());
}
