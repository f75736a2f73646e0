//! Transactions of one address, the token transfers that belong to them, and
//! the records of the two streams they are built from.

use crate::merge::{merge_transfers, merged};
use crate::pagination::{
    after, all_full, fed, joined, law_pagination_ends_with_empty_page, next_request, page_params,
    remaining, start, FetchError, Pager, PagerState, TxListParams,
};
use crate::primitives::{Address, H256, U256};
use vstd::prelude::*;

verus! {

/// Configuration for connecting to the Arbitrum network.
#[derive(Debug)]
pub struct Config {
    pub rpc_url: String,
    pub etherscan_api_key: Option<String>,
}

/// The formats in which a configuration or mapping file can be written.
#[derive(Clone, Copy, Debug, PartialEq, Eq, Structural)]
pub enum FileFormat {
    Json,
    Yaml,
    Toml,
}

/// Where the configuration is taken from.
#[derive(Debug)]
pub enum ConfigSource {
    /// From the environment: this is the configuration.
    Environment(Config),
    /// From the file at `path`, which is still to be read.
    File { path: String },
}

/// The format of a configuration file with the given extension: JSON for
/// `json`, TOML for anything but `json`, `yaml` and `yml`, and YAML else,
/// also where there is no extension.
pub open spec fn config_format(extension: Option<Seq<char>>) -> FileFormat {
    match extension {
        None => FileFormat::Yaml,
        Some(ext) => if ext == "json"@ {
            FileFormat::Json
        } else if ext == "yaml"@ || ext == "yml"@ {
            FileFormat::Yaml
        } else {
            FileFormat::Toml
        },
    }
}

/// The format of a mapping file with the given extension: JSON for `json`,
/// TOML for `toml`, and YAML else, also where there is no extension.
pub open spec fn mapping_format(extension: Option<Seq<char>>) -> FileFormat {
    match extension {
        None => FileFormat::Yaml,
        Some(ext) => if ext == "json"@ {
            FileFormat::Json
        } else if ext == "toml"@ {
            FileFormat::Toml
        } else {
            FileFormat::Yaml
        },
    }
}

fn same_text(text: &str, word: &str) -> (same: bool)
    ensures
        same == (text@ == word@),
{
    text.to_owned() == word.to_owned()
}

impl Config {
    /// Decides where the configuration comes from. An RPC URL found in the
    /// environment makes the configuration, together with the API key found
    /// there; without one the file at `path` is to be read, or `config.yml`
    /// where no path is given.
    pub fn load(rpc_url: Option<String>, etherscan_api_key: Option<String>, path: Option<&str>) -> (source:
        ConfigSource)
        ensures
            (match rpc_url {
                Some(url) => source matches ConfigSource::Environment(config) && config.rpc_url@
                    == url@ && config.etherscan_api_key.deep_view()
                    == etherscan_api_key.deep_view(),
                None => source matches ConfigSource::File { path: chosen } && chosen@ == match path {
                    Some(given) => given@,
                    None => "config.yml"@,
                },
            }),
    {
        match rpc_url {
            Some(url) => ConfigSource::Environment(Config { rpc_url: url, etherscan_api_key }),
            None => {
                let path = match path {
                    Some(given) => given,
                    None => "config.yml",
                };
                ConfigSource::File { path: path.to_owned() }
            },
        }
    }

    /// The format in which a configuration file with this extension is read.
    pub fn format(extension: Option<&str>) -> (format: FileFormat)
        ensures
            format == config_format(
                match extension {
                    Some(ext) => Some(ext@),
                    None => None,
                },
            ),
    {
        match extension {
            None => FileFormat::Yaml,
            Some(ext) => if same_text(ext, "json") {
                FileFormat::Json
            } else if same_text(ext, "yaml") || same_text(ext, "yml") {
                FileFormat::Yaml
            } else {
                FileFormat::Toml
            },
        }
    }
}

/// Details for a single ERC-20 token transfer.
#[derive(Debug)]
pub struct Erc20Transfer {
    pub token_contract: Address,
    pub from: Address,
    pub to: Option<Address>,
    pub value: U256,
    pub token_name: String,
    pub token_symbol: String,
    pub token_decimal: String,
}

/// What an [`Erc20Transfer`] holds, with its texts as sequences of characters.
pub struct Erc20TransferView {
    pub token_contract: Address,
    pub from: Address,
    pub to: Option<Address>,
    pub value: U256,
    pub token_name: Seq<char>,
    pub token_symbol: Seq<char>,
    pub token_decimal: Seq<char>,
}

impl DeepView for Erc20Transfer {
    type V = Erc20TransferView;

    open spec fn deep_view(&self) -> Erc20TransferView {
        Erc20TransferView {
            token_contract: self.token_contract,
            from: self.from,
            to: self.to,
            value: self.value,
            token_name: self.token_name@,
            token_symbol: self.token_symbol@,
            token_decimal: self.token_decimal@,
        }
    }
}

impl Clone for Erc20Transfer {
    fn clone(&self) -> (copy: Erc20Transfer)
        ensures
            copy.deep_view() == self.deep_view(),
    {
        Erc20Transfer {
            token_contract: self.token_contract,
            from: self.from,
            to: self.to,
            value: self.value,
            token_name: self.token_name.clone(),
            token_symbol: self.token_symbol.clone(),
            token_decimal: self.token_decimal.clone(),
        }
    }
}

/// One transaction of the tracked address, with the token transfers that
/// were collected under its hash.
#[derive(Debug)]
pub struct Transaction {
    pub hash: H256,
    pub block_number: u64,
    pub timestamp: u64,
    pub from: Address,
    pub to: Option<Address>,
    pub value: U256,
    /// Optional display tag for the transaction
    pub tag: Option<String>,
    /// Optional category for the transaction
    pub category: Option<String>,
    /// Optional description for the transaction
    pub description: Option<String>,
    /// ERC-20 token transfers associated with this transaction
    pub transfers: Vec<Erc20Transfer>,
}

/// What a [`Transaction`] holds, with its texts as sequences of characters.
pub struct TransactionView {
    pub hash: H256,
    pub block_number: u64,
    pub timestamp: u64,
    pub from: Address,
    pub to: Option<Address>,
    pub value: U256,
    pub tag: Option<Seq<char>>,
    pub category: Option<Seq<char>>,
    pub description: Option<Seq<char>>,
    pub transfers: Seq<Erc20TransferView>,
}

impl DeepView for Transaction {
    type V = TransactionView;

    open spec fn deep_view(&self) -> TransactionView {
        TransactionView {
            hash: self.hash,
            block_number: self.block_number,
            timestamp: self.timestamp,
            from: self.from,
            to: self.to,
            value: self.value,
            tag: self.tag.deep_view(),
            category: self.category.deep_view(),
            description: self.description.deep_view(),
            transfers: self.transfers.deep_view(),
        }
    }
}

impl Clone for Transaction {
    fn clone(&self) -> (copy: Transaction)
        ensures
            copy.deep_view() == self.deep_view(),
    {
        let mut transfers: Vec<Erc20Transfer> = Vec::new();
        let mut i: usize = 0;
        while i < self.transfers.len()
            invariant
                i <= self.transfers@.len(),
                transfers.deep_view() == self.transfers.deep_view().take(i as int),
            decreases self.transfers@.len() - i,
        {
            let ghost before = transfers.deep_view();
            transfers.push(self.transfers[i].clone());
            assert(transfers.deep_view() =~= before.push(self.transfers@[i as int].deep_view()));
            assert(self.transfers.deep_view().take(i as int + 1) =~= before.push(
                self.transfers@[i as int].deep_view(),
            ));
            i = i + 1;
        }
        assert(self.transfers.deep_view().take(i as int) =~= self.transfers.deep_view());
        Transaction {
            hash: self.hash,
            block_number: self.block_number,
            timestamp: self.timestamp,
            from: self.from,
            to: self.to,
            value: self.value,
            tag: clone_text(&self.tag),
            category: clone_text(&self.category),
            description: clone_text(&self.description),
            transfers,
        }
    }
}

/// One record of the normal-transaction stream, as the source reported it.
/// A field that the source left out or filled with something else is `None`.
#[derive(Debug)]
pub struct NormalTransaction {
    pub hash: Option<H256>,
    pub from: Option<Address>,
    pub to: Option<Address>,
    pub block_number: Option<u64>,
    pub time_stamp: String,
    pub value: U256,
}

/// What a [`NormalTransaction`] holds, with its text as a sequence of characters.
pub struct NormalTransactionView {
    pub hash: Option<H256>,
    pub from: Option<Address>,
    pub to: Option<Address>,
    pub block_number: Option<u64>,
    pub time_stamp: Seq<char>,
    pub value: U256,
}

impl DeepView for NormalTransaction {
    type V = NormalTransactionView;

    open spec fn deep_view(&self) -> NormalTransactionView {
        NormalTransactionView {
            hash: self.hash,
            from: self.from,
            to: self.to,
            block_number: self.block_number,
            time_stamp: self.time_stamp@,
            value: self.value,
        }
    }
}

/// One record of the token-transfer stream, as the source reported it.
#[derive(Debug)]
pub struct Erc20TokenTransferEvent {
    pub hash: H256,
    pub from: Address,
    pub contract_address: Address,
    pub to: Option<Address>,
    pub value: U256,
    pub token_name: String,
    pub token_symbol: String,
    pub token_decimal: String,
}

/// What an [`Erc20TokenTransferEvent`] holds, with its texts as sequences of
/// characters.
pub struct Erc20TokenTransferEventView {
    pub hash: H256,
    pub from: Address,
    pub contract_address: Address,
    pub to: Option<Address>,
    pub value: U256,
    pub token_name: Seq<char>,
    pub token_symbol: Seq<char>,
    pub token_decimal: Seq<char>,
}

impl DeepView for Erc20TokenTransferEvent {
    type V = Erc20TokenTransferEventView;

    open spec fn deep_view(&self) -> Erc20TokenTransferEventView {
        Erc20TokenTransferEventView {
            hash: self.hash,
            from: self.from,
            contract_address: self.contract_address,
            to: self.to,
            value: self.value,
            token_name: self.token_name@,
            token_symbol: self.token_symbol@,
            token_decimal: self.token_decimal@,
        }
    }
}

/// Which token transfers a request asks for.
#[derive(Clone, Copy, Debug)]
pub enum TokenQueryOption {
    ByAddress(Address),
    ByContract(Address),
    ByAddressAndContract(Address, Address),
}

/// The two page requests that collecting the history of an address needs.
/// A request always names its page, counted from 1, and asks for a page of
/// the fixed size; nothing is assumed of what an implementation answers.
pub trait TxSource {
    /// One page of the normal transactions of `address`.
    fn get_transactions(&self, address: &Address, params: Option<TxListParams>) -> Result<
        Vec<NormalTransaction>,
        FetchError,
    >
        requires
            params matches Some(asked) && asked == page_params(asked.page) && asked.page >= 1,
    ;

    /// One page of the token-transfer events that `option` selects.
    fn get_erc20_token_transfer_events(
        &self,
        option: TokenQueryOption,
        params: Option<TxListParams>,
    ) -> Result<Vec<Erc20TokenTransferEvent>, FetchError>
        requires
            params matches Some(asked) && asked == page_params(asked.page) && asked.page >= 1,
    ;
}

/// The records of a list, each with its texts as sequences of characters.
pub open spec fn views_of<T: DeepView>(items: Seq<T>) -> Seq<T::V> {
    Seq::new(items.len(), |i: int| items[i].deep_view())
}

/// The request for the next page of the normal transactions of `address`,
/// where the walk stands at `state`: none once the stream has ended.
pub open spec fn transactions_asked<T>(address: Address, state: PagerState<T>) -> Option<
    (Address, TxListParams),
> {
    match next_request(state) {
        Some(params) => Some((address, params)),
        None => None,
    }
}

/// The request for the next page of the token-transfer events that
/// `address` takes part in, where the walk stands at `state`: none once the
/// stream has ended.
pub open spec fn events_asked<T>(address: Address, state: PagerState<T>) -> Option<
    (TokenQueryOption, TxListParams),
> {
    match next_request(state) {
        Some(params) => Some((TokenQueryOption::ByAddress(address), params)),
        None => None,
    }
}

/// What to ask the source for next in the stream of normal transactions:
/// the page that the walk has come to, of the transactions of `address`; or
/// nothing once the stream has ended.
pub fn transactions_request(address: Address, pager: &Pager<NormalTransaction>) -> (asked: Option<
    (Address, TxListParams),
>)
    ensures
        asked == transactions_asked(address, pager@),
{
    match pager.request() {
        Some(params) => Some((address, params)),
        None => None,
    }
}

/// What to ask the source for next in the stream of token-transfer events:
/// the page that the walk has come to, of the events that `address` takes
/// part in; or nothing once the stream has ended.
pub fn events_request(address: Address, pager: &Pager<Erc20TokenTransferEvent>) -> (asked: Option<
    (TokenQueryOption, TxListParams),
>)
    ensures
        asked == events_asked(address, pager@),
{
    match pager.request() {
        Some(params) => Some((TokenQueryOption::ByAddress(address), params)),
        None => None,
    }
}

/// The requests of a stream that answers with `n` full pages and then an
/// empty one: the pages 1 to `n + 1` are asked for in turn, each for the
/// given address (the events by address), and after the empty page nothing
/// more is asked for.
pub proof fn law_requests_follow_the_pages<T>(address: Address, pages: Seq<Seq<T>>)
    requires
        all_full(pages),
        pages.len() < u64::MAX,
    ensures
        forall|k: int|
            0 <= k <= pages.len() ==> transactions_asked(
                address,
                #[trigger] fed(start::<T>(), pages.take(k)),
            ) == Some((address, page_params((k + 1) as u64))),
        forall|k: int|
            0 <= k <= pages.len() ==> events_asked(
                address,
                #[trigger] fed(start::<T>(), pages.take(k)),
            ) == Some((TokenQueryOption::ByAddress(address), page_params((k + 1) as u64))),
        transactions_asked(address, after(fed(start::<T>(), pages), Seq::<T>::empty())) is None,
        events_asked(address, after(fed(start::<T>(), pages), Seq::<T>::empty())) is None,
{
    law_pagination_ends_with_empty_page(pages);
}

/// Retrieve all normal transactions for the given address, each with the
/// token transfers that belong to it.
///
/// Both streams are walked page by page until the first empty page. Each
/// request is the one that [`transactions_request`] or [`events_request`]
/// makes, and each answer goes through [`Pager::answer`], so that the first
/// failure ends the fetch with that failure. What comes back on success is
/// the merge of the pages that the source answered with, joined in the
/// order in which they came.
pub fn fetch_transactions<C>(client: &C, address: Address) -> (fetched: Result<
    Vec<Transaction>,
    FetchError,
>) where C: TxSource
    ensures
        (fetched matches Ok(out) ==> exists|
            tx_pages: Seq<Seq<NormalTransaction>>,
            event_pages: Seq<Seq<Erc20TokenTransferEvent>>,
        |
            {
                &&& all_full(tx_pages)
                &&& all_full(event_pages)
                &&& tx_pages.len() < u64::MAX
                &&& event_pages.len() < u64::MAX
                &&& out.deep_view() == merged(
                    views_of(joined(tx_pages)),
                    views_of(joined(event_pages)),
                )
            }),
{
    let mut txs: Pager<NormalTransaction> = Pager::new();
    let ghost mut tx_pages: Seq<Seq<NormalTransaction>> = Seq::empty();
    loop
        invariant
            all_full(tx_pages),
            txs@.items == joined(tx_pages),
            txs@.page == tx_pages.len() + 1,
            txs@.page <= u64::MAX,
        decreases remaining(txs@),
    {
        let (who, params) = match transactions_request(address, &txs) {
            Some(asked) => asked,
            None => {
                break ;
            },
        };
        let answer = client.get_transactions(&who, Some(params));
        proof {
            if answer is Ok && answer->Ok_0@.len() > 0 {
                let batch = answer->Ok_0@;
                assert(tx_pages.push(batch).drop_last() =~= tx_pages);
                tx_pages = tx_pages.push(batch);
            }
        }
        match txs.answer(answer) {
            Ok(()) => {},
            Err(e) => {
                return Err(e);
            },
        }
    }
    let mut events: Pager<Erc20TokenTransferEvent> = Pager::new();
    let ghost mut event_pages: Seq<Seq<Erc20TokenTransferEvent>> = Seq::empty();
    loop
        invariant
            all_full(event_pages),
            events@.items == joined(event_pages),
            events@.page == event_pages.len() + 1,
            events@.page <= u64::MAX,
        decreases remaining(events@),
    {
        let (option, params) = match events_request(address, &events) {
            Some(asked) => asked,
            None => {
                break ;
            },
        };
        let answer = client.get_erc20_token_transfer_events(option, Some(params));
        proof {
            if answer is Ok && answer->Ok_0@.len() > 0 {
                let batch = answer->Ok_0@;
                assert(event_pages.push(batch).drop_last() =~= event_pages);
                event_pages = event_pages.push(batch);
            }
        }
        match events.answer(answer) {
            Ok(()) => {},
            Err(e) => {
                return Err(e);
            },
        }
    }
    let txs = txs.into_items();
    let events = events.into_items();
    proof {
        assert(txs.deep_view() =~= views_of(joined(tx_pages)));
        assert(events.deep_view() =~= views_of(joined(event_pages)));
    }
    let out = merge_transfers(txs, events);
    Ok(out)
}

/// Category information associated with an address.
#[derive(Debug)]
pub struct CategoryEntry {
    pub category: String,
    pub description: Option<String>,
}

/// What a [`CategoryEntry`] holds, with its texts as sequences of characters.
pub struct CategoryEntryView {
    pub category: Seq<char>,
    pub description: Option<Seq<char>>,
}

impl DeepView for CategoryEntry {
    type V = CategoryEntryView;

    open spec fn deep_view(&self) -> CategoryEntryView {
        CategoryEntryView {
            category: self.category@,
            description: self.description.deep_view(),
        }
    }
}

fn clone_text(text: &Option<String>) -> (copy: Option<String>)
    ensures
        copy.deep_view() == text.deep_view(),
{
    match text {
        Some(t) => Some(t.clone()),
        None => None,
    }
}

impl Clone for CategoryEntry {
    fn clone(&self) -> (copy: CategoryEntry)
        ensures
            copy.deep_view() == self.deep_view(),
    {
        CategoryEntry {
            category: self.category.clone(),
            description: clone_text(&self.description),
        }
    }
}

/// What the mapping says of one address, in one of its two shapes.
#[derive(Debug)]
pub enum MappingEntry {
    /// A category, with a description or without.
    Rich(CategoryEntry),
    /// A single display tag.
    Legacy { tag: String },
}

/// What a [`MappingEntry`] holds, with its texts as sequences of characters.
pub enum MappingEntryView {
    Rich(CategoryEntryView),
    Legacy { tag: Seq<char> },
}

impl DeepView for MappingEntry {
    type V = MappingEntryView;

    open spec fn deep_view(&self) -> MappingEntryView {
        match self {
            MappingEntry::Rich(entry) => MappingEntryView::Rich(entry.deep_view()),
            MappingEntry::Legacy { tag } => MappingEntryView::Legacy { tag: tag@ },
        }
    }
}

/// The mapping that a list of entries stands for: of two entries for one
/// address the later one counts.
pub open spec fn entries_map(entries: Seq<(Address, MappingEntry)>) -> Map<
    Address,
    MappingEntryView,
>
    decreases entries.len(),
{
    if entries.len() == 0 {
        Map::empty()
    } else {
        entries_map(entries.drop_last()).insert(entries.last().0, entries.last().1.deep_view())
    }
}

/// The mapping that a list of categories stands for.
pub open spec fn rich_map(entries: Seq<(Address, CategoryEntry)>) -> Map<
    Address,
    MappingEntryView,
>
    decreases entries.len(),
{
    if entries.len() == 0 {
        Map::empty()
    } else {
        rich_map(entries.drop_last()).insert(
            entries.last().0,
            MappingEntryView::Rich(entries.last().1.deep_view()),
        )
    }
}

/// The mapping that a list of plain tags stands for.
pub open spec fn tags_map(tags: Seq<(Address, String)>) -> Map<Address, MappingEntryView>
    decreases tags.len(),
{
    if tags.len() == 0 {
        Map::empty()
    } else {
        tags_map(tags.drop_last()).insert(
            tags.last().0,
            MappingEntryView::Legacy { tag: tags.last().1@ },
        )
    }
}

/// The mapping file fits neither of the two accepted shapes.
#[derive(Clone, Debug, PartialEq, Eq)]
pub struct ConfigParseError {
    /// What the parser said of the file when it was read in the simpler shape.
    pub message: String,
}

/// Mapping from addresses to transaction categories and descriptions, or to
/// display tags.
#[derive(Debug)]
pub struct Categories {
    entries: Vec<(Address, MappingEntry)>,
}

impl Categories {
    /// The mapping, as a map from address to entry.
    pub closed spec fn view(&self) -> Map<Address, MappingEntryView> {
        entries_map(self.entries@)
    }

    /// The mapping without any entry.
    pub fn new() -> (categories: Categories)
        ensures
            categories@ == Map::<Address, MappingEntryView>::empty(),
    {
        Categories { entries: Vec::new() }
    }

    /// Gives `address` a category entry, in place of what it had, if anything.
    pub fn insert(&mut self, address: Address, entry: CategoryEntry)
        ensures
            final(self)@ == old(self)@.insert(address, MappingEntryView::Rich(entry.deep_view())),
    {
        let ghost before = self.entries@;
        self.entries.push((address, MappingEntry::Rich(entry)));
        assert(self.entries@.drop_last() =~= before);
    }

    /// Gives `address` a display tag, in place of what it had, if anything.
    pub fn insert_tag(&mut self, address: Address, tag: String)
        ensures
            final(self)@ == old(self)@.insert(address, (MappingEntryView::Legacy { tag: tag@ })),
    {
        let ghost before = self.entries@;
        self.entries.push((address, MappingEntry::Legacy { tag }));
        assert(self.entries@.drop_last() =~= before);
    }

    /// The mapping that a parsed file stands for. The file is read in two
    /// shapes: `rich` holds its entries where it fits the shape with a
    /// category and an optional description for each address, `legacy` its
    /// tags where it fits the shape with one tag for each address, or else
    /// the parser's message. The richer shape is preferred; a file that
    /// fits neither is refused.
    pub fn load(
        rich: Option<Vec<(Address, CategoryEntry)>>,
        legacy: Result<Vec<(Address, String)>, String>,
    ) -> (loaded: Result<Categories, ConfigParseError>)
        ensures
            (match (rich, legacy) {
                (Some(entries), _) => loaded is Ok && loaded.unwrap()@ == rich_map(entries@),
                (None, Ok(tags)) => loaded is Ok && loaded.unwrap()@ == tags_map(tags@),
                (None, Err(message)) => loaded is Err && loaded.unwrap_err().message@
                    == message@,
            }),
    {
        match rich {
            Some(listed) => {
                let mut categories = Categories::new();
                let mut i: usize = 0;
                while i < listed.len()
                    invariant
                        i <= listed@.len(),
                        categories@ == rich_map(listed@.take(i as int)),
                    decreases listed@.len() - i,
                {
                    let entry = listed[i].1.clone();
                    categories.insert(listed[i].0, entry);
                    assert(listed@.take(i as int + 1).drop_last() =~= listed@.take(i as int));
                    i = i + 1;
                }
                assert(listed@.take(i as int) =~= listed@);
                Ok(categories)
            },
            None => match legacy {
                Ok(tags) => {
                    let mut categories = Categories::new();
                    let mut i: usize = 0;
                    while i < tags.len()
                        invariant
                            i <= tags@.len(),
                            categories@ == tags_map(tags@.take(i as int)),
                        decreases tags@.len() - i,
                    {
                        let tag = tags[i].1.clone();
                        categories.insert_tag(tags[i].0, tag);
                        assert(tags@.take(i as int + 1).drop_last() =~= tags@.take(i as int));
                        i = i + 1;
                    }
                    assert(tags@.take(i as int) =~= tags@);
                    Ok(categories)
                },
                Err(message) => Err(ConfigParseError { message }),
            },
        }
    }

    /// The format in which a mapping file with this extension is read.
    pub fn format(extension: Option<&str>) -> (format: FileFormat)
        ensures
            format == mapping_format(
                match extension {
                    Some(ext) => Some(ext@),
                    None => None,
                },
            ),
    {
        match extension {
            None => FileFormat::Yaml,
            Some(ext) => if same_text(ext, "json") {
                FileFormat::Json
            } else if same_text(ext, "toml") {
                FileFormat::Toml
            } else {
                FileFormat::Yaml
            },
        }
    }

    /// The entry of `addr`, if it has one.
    pub fn entry_for(&self, addr: &Address) -> (found: Option<&MappingEntry>)
        ensures
            (match found {
                Some(entry) => self@.contains_key(*addr) && entry.deep_view() == self@[*addr],
                None => !self@.contains_key(*addr),
            }),
    {
        let mut k: usize = self.entries.len();
        assert(self.entries@.take(k as int) =~= self.entries@);
        while k > 0
            invariant
                k <= self.entries@.len(),
                entries_map(self.entries@).contains_key(*addr) == entries_map(
                    self.entries@.take(k as int),
                ).contains_key(*addr),
                entries_map(self.entries@).contains_key(*addr) ==> entries_map(self.entries@)[*addr]
                    == entries_map(self.entries@.take(k as int))[*addr],
            decreases k,
        {
            proof {
                assert(self.entries@.take(k as int).drop_last() =~= self.entries@.take(
                    k as int - 1,
                ));
            }
            k = k - 1;
            if self.entries[k].0 == *addr {
                return Some(&self.entries[k].1);
            }
        }
        None
    }
}

/// The entry that applies to a transaction: the recipient's where the
/// recipient has one, else the sender's, else none.
pub open spec fn entry_applied(
    tx: TransactionView,
    categories: Map<Address, MappingEntryView>,
) -> Option<MappingEntryView> {
    if tx.to is Some && categories.contains_key(tx.to.unwrap()) {
        Some(categories[tx.to.unwrap()])
    } else if categories.contains_key(tx.from) {
        Some(categories[tx.from])
    } else {
        None
    }
}

/// A transaction with what an entry says written into it: a category entry
/// sets category and description, a tag sets the tag.
pub open spec fn with_entry(tx: TransactionView, entry: MappingEntryView) -> TransactionView {
    match entry {
        MappingEntryView::Rich(rich) => TransactionView {
            category: Some(rich.category),
            description: rich.description,
            ..tx
        },
        MappingEntryView::Legacy { tag } => TransactionView { tag: Some(tag), ..tx },
    }
}

/// A transaction after annotation: the entry that applies is written into
/// it; without one the transaction stays as it was.
pub open spec fn annotated(
    tx: TransactionView,
    categories: Map<Address, MappingEntryView>,
) -> TransactionView {
    match entry_applied(tx, categories) {
        Some(entry) => with_entry(tx, entry),
        None => tx,
    }
}

/// Assign categories to transactions by looking up the from and to addresses in the
/// provided [`Categories`] mapping.
pub fn apply_categories(txs: &mut [Transaction], categories: &Categories)
    ensures
        final(txs)@.len() == old(txs)@.len(),
        forall|i: int|
            0 <= i < old(txs)@.len() ==> (#[trigger] final(txs)@[i]).deep_view() == annotated(
                old(txs)@[i].deep_view(),
                categories@,
            ),
{
    let mut i: usize = 0;
    while i < txs.len()
        invariant
            i <= txs@.len(),
            txs@.len() == old(txs)@.len(),
            forall|k: int|
                0 <= k < i ==> (#[trigger] txs@[k]).deep_view() == annotated(
                    old(txs)@[k].deep_view(),
                    categories@,
                ),
            forall|k: int| i <= k < txs@.len() ==> #[trigger] txs@[k] == old(txs)@[k],
        decreases txs@.len() - i,
    {
        let ghost before = txs@;
        let by_recipient = match txs[i].to {
            Some(to) => categories.entry_for(&to),
            None => None,
        };
        let found = match by_recipient {
            Some(entry) => Some(entry),
            None => categories.entry_for(&txs[i].from),
        };
        match found {
            Some(MappingEntry::Rich(entry)) => {
                let category = entry.category.clone();
                let description = clone_text(&entry.description);
                txs[i].category = Some(category);
                txs[i].description = description;
            },
            Some(MappingEntry::Legacy { tag }) => {
                let tag = tag.clone();
                txs[i].tag = Some(tag);
            },
            None => {},
        }
        proof {
            assert(before[i as int] == old(txs)@[i as int]);
            assert forall|k: int| 0 <= k < i implies (#[trigger] txs@[k]).deep_view() == annotated(
                old(txs)@[k].deep_view(),
                categories@,
            ) by {
                assert(txs@[k] == before[k]);
            }
        }
        i = i + 1;
    }
}

/// Where the recipient has an entry, its entry is the one applied, whether
/// or not the sender has one too.
pub proof fn law_recipient_entry_wins(
    tx: TransactionView,
    categories: Map<Address, MappingEntryView>,
)
    requires
        tx.to is Some,
        categories.contains_key(tx.to.unwrap()),
    ensures
        annotated(tx, categories) == with_entry(tx, categories[tx.to.unwrap()]),
{
}

/// Where only the sender has an entry, the sender's entry is applied.
pub proof fn law_sender_entry_is_used(
    tx: TransactionView,
    categories: Map<Address, MappingEntryView>,
)
    requires
        tx.to is None || !categories.contains_key(tx.to.unwrap()),
        categories.contains_key(tx.from),
    ensures
        annotated(tx, categories) == with_entry(tx, categories[tx.from]),
{
}

/// Where neither has an entry, annotation leaves the transaction as it was.
pub proof fn law_no_entry_no_change(
    tx: TransactionView,
    categories: Map<Address, MappingEntryView>,
)
    requires
        tx.to is None || !categories.contains_key(tx.to.unwrap()),
        !categories.contains_key(tx.from),
    ensures
        annotated(tx, categories) == tx,
{
}

} // verus!
