//! Ledger splits: the signed lines that the transactions of the tracked
//! address come to, one for the native asset and one for each transfer of a
//! trusted token.

use crate::blockchain::{Erc20TransferView, Transaction, TransactionView};
use crate::calendar::{date_of_timestamp, Date, DateView};
use crate::price::{cache_key, cached, Cache, Price};
use crate::primitives::{Address, U256};
use crate::text::{decimal_digits, parse_u32, parsed_unsigned, zero_padded};
use crate::tokens::{known_tokens, symbol_in, SymbolRegistry};
use vstd::prelude::*;

verus! {

/// The number of decimal places of the native asset.
pub const NATIVE_DECIMALS: u32 = 18;

/// An amount of units: the digits of its magnitude as a decimal fraction,
/// and whether it is taken from the tracked address.
#[derive(Debug)]
pub struct Amount {
    pub negative: bool,
    pub digits: String,
}

/// What an [`Amount`] holds, with its digits as a sequence of characters.
pub struct AmountView {
    pub negative: bool,
    pub digits: Seq<char>,
}

impl DeepView for Amount {
    type V = AmountView;

    open spec fn deep_view(&self) -> AmountView {
        AmountView { negative: self.negative, digits: self.digits@ }
    }
}

/// A single split in a transaction for ledger exports.
#[derive(Debug)]
pub struct Split {
    pub date: Date,
    pub description: String,
    pub account: String,
    pub commodity: String,
    pub amount: Amount,
    /// The price in USD of one unit on that day, where the split is valued.
    pub unit_price: Option<Price>,
}

/// What a [`Split`] holds, with its texts as sequences of characters.
pub struct SplitView {
    pub date: DateView,
    pub description: Seq<char>,
    pub account: Seq<char>,
    pub commodity: Seq<char>,
    pub amount: AmountView,
    pub unit_price: Option<Price>,
}

impl DeepView for Split {
    type V = SplitView;

    open spec fn deep_view(&self) -> SplitView {
        SplitView {
            date: self.date@,
            description: self.description@,
            account: self.account@,
            commodity: self.commodity@,
            amount: self.amount.deep_view(),
            unit_price: self.unit_price,
        }
    }
}

/// A price that valuation needs and the cache does not hold.
#[derive(Clone, Copy, Debug)]
pub struct MissingPrice {
    /// The token contract, or `None` for the native asset.
    pub asset: Option<Address>,
    pub date: Date,
}

/// Ten to the power `e`.
pub open spec fn pow10(e: nat) -> nat
    decreases e,
{
    if e == 0 {
        1
    } else {
        10 * pow10((e - 1) as nat)
    }
}

/// `value` divided by ten to the power `decimals`, written as a decimal
/// fraction: the whole part, a point, and the remainder with `decimals`
/// digits (with one digit where `decimals` is zero).
pub open spec fn units_text(value: nat, decimals: nat) -> Seq<char> {
    decimal_digits(value / pow10(decimals)) + seq!['.'] + zero_padded(
        decimal_digits(value % pow10(decimals)),
        decimals,
    )
}

/// The digits of an amount of `value` smallest units with `decimals`
/// decimal places; `0` where there are more places than a 256-bit amount
/// can have.
pub open spec fn amount_text(value: nat, decimals: nat) -> Seq<char> {
    if decimals < 78 {
        units_text(value, decimals)
    } else {
        "0"@
    }
}

/// Calls `ethers_core::utils::format_units` on a 256-bit amount and a
/// number of decimal places, and drops the error's detail. The contract
/// claims what the function's source shows: it fails from 78 places on, and
/// else writes the quotient by the power of ten, a point, and the remainder
/// padded with zeros to the number of places.
#[verifier::external_body]
fn format_units(value: &U256, decimals: u32) -> (text: Option<String>)
    ensures
        text is Some <==> decimals < 78,
        text matches Some(t) ==> t@ == units_text(value.value(), decimals as nat),
{
    ethers_core::utils::format_units(ethers_core::types::U256(value.limbs), decimals).ok()
}

/// The digits of an amount of `value` smallest units with `decimals` decimal
/// places.
pub fn value_to_text(value: &U256, decimals: u32) -> (digits: String)
    ensures
        digits@ == amount_text(value.value(), decimals as nat),
{
    match format_units(value, decimals) {
        Some(text) => text,
        None => "0".to_owned(),
    }
}

/// A timestamp as a signed number of seconds: itself up to `i64::MAX`, and
/// beyond that the negative number with the same 64 bits.
pub open spec fn timestamp_seconds(timestamp: u64) -> i64 {
    if timestamp <= i64::MAX {
        timestamp as i64
    } else {
        (timestamp - 0x1_0000_0000_0000_0000) as i64
    }
}

/// The date of a transaction, where its timestamp has one.
pub open spec fn tx_date(tx: TransactionView) -> Option<DateView> {
    date_of_timestamp(timestamp_seconds(tx.timestamp))
}

/// Whether every transaction falls on a date that the calendar reaches.
pub open spec fn all_dated(txs: Seq<TransactionView>) -> bool {
    forall|i: int| 0 <= i < txs.len() ==> tx_date(#[trigger] txs[i]) is Some
}

/// Whether the tracked address receives the transaction.
pub open spec fn is_deposit(address: Address, tx: TransactionView) -> bool {
    tx.to == Some(address)
}

/// The description of the splits of a transaction: `from` or `to` and the
/// tag where there is a tag, else the description, else the category, else
/// `deposit` or `withdrawal`.
pub open spec fn description_of(address: Address, tx: TransactionView) -> Seq<char> {
    match tx.tag {
        Some(tag) => if is_deposit(address, tx) {
            "from "@ + tag
        } else {
            "to "@ + tag
        },
        None => match tx.description {
            Some(description) => description,
            None => match tx.category {
                Some(category) => category,
                None => if is_deposit(address, tx) {
                    "deposit"@
                } else {
                    "withdrawal"@
                },
            },
        },
    }
}

/// The account of the splits of a transaction: the tag, else the category,
/// else `Unknown`.
pub open spec fn account_of(tx: TransactionView) -> Seq<char> {
    match tx.tag {
        Some(tag) => tag,
        None => match tx.category {
            Some(category) => category,
            None => "Unknown"@,
        },
    }
}

/// The number of decimal places that a transfer reports, or 18 where its
/// text spells none.
pub open spec fn decimals_of(text: Seq<char>) -> u32 {
    match parsed_unsigned(text, u32::MAX as nat) {
        Some(d) => d as u32,
        None => NATIVE_DECIMALS,
    }
}

/// The price to value a split with. Without prices a split is not valued;
/// with prices, the price of the asset on that day is needed.
pub open spec fn unit_price(
    prices: Option<Map<Seq<char>, Price>>,
    asset: Option<Address>,
    date: DateView,
) -> Result<Option<Price>, (Option<Address>, DateView)> {
    match prices {
        None => Ok(None),
        Some(known) => match cached(known, cache_key(asset, date)) {
            Some(price) => Ok(Some(price)),
            None => Err((asset, date)),
        },
    }
}

/// The split for the native value of a transaction.
pub open spec fn native_split(
    address: Address,
    tx: TransactionView,
    date: DateView,
    price: Option<Price>,
) -> SplitView {
    SplitView {
        date,
        description: description_of(address, tx),
        account: account_of(tx),
        commodity: "ETH"@,
        amount: AmountView {
            negative: tx.from == address,
            digits: amount_text(tx.value.value(), NATIVE_DECIMALS as nat),
        },
        unit_price: price,
    }
}

/// The split for one transfer of a token that the registry lists under
/// `symbol`.
pub open spec fn token_split(
    address: Address,
    tx: TransactionView,
    date: DateView,
    transfer: Erc20TransferView,
    symbol: Seq<char>,
    price: Option<Price>,
) -> SplitView {
    SplitView {
        date,
        description: description_of(address, tx),
        account: account_of(tx),
        commodity: symbol,
        amount: AmountView {
            negative: transfer.from == address,
            digits: amount_text(
                transfer.value.value(),
                decimals_of(transfer.token_decimal) as nat,
            ),
        },
        unit_price: price,
    }
}

/// The native split of a transaction: none where the value is zero.
pub open spec fn native_splits(
    address: Address,
    tx: TransactionView,
    date: DateView,
    prices: Option<Map<Seq<char>, Price>>,
) -> Result<Seq<SplitView>, (Option<Address>, DateView)> {
    if tx.value.value() == 0 {
        Ok(Seq::empty())
    } else {
        match unit_price(prices, None, date) {
            Ok(price) => Ok(seq![native_split(address, tx, date, price)]),
            Err(missing) => Err(missing),
        }
    }
}

/// The splits of some transfers of a transaction, in their order: one for
/// each transfer whose contract the registry lists, none for the others.
pub open spec fn token_splits(
    registry: Seq<(Address, &'static str)>,
    address: Address,
    tx: TransactionView,
    date: DateView,
    prices: Option<Map<Seq<char>, Price>>,
    transfers: Seq<Erc20TransferView>,
) -> Result<Seq<SplitView>, (Option<Address>, DateView)>
    decreases transfers.len(),
{
    if transfers.len() == 0 {
        Ok(Seq::empty())
    } else {
        match token_splits(registry, address, tx, date, prices, transfers.drop_last()) {
            Err(missing) => Err(missing),
            Ok(earlier) => match symbol_in(registry, transfers.last().token_contract) {
                None => Ok(earlier),
                Some(symbol) => match unit_price(
                    prices,
                    Some(transfers.last().token_contract),
                    date,
                ) {
                    Err(missing) => Err(missing),
                    Ok(price) => Ok(
                        earlier.push(
                            token_split(address, tx, date, transfers.last(), symbol, price),
                        ),
                    ),
                },
            },
        }
    }
}

/// The splits of one transaction: the native split, then those of its
/// transfers.
pub open spec fn splits_of(
    registry: Seq<(Address, &'static str)>,
    address: Address,
    tx: TransactionView,
    date: DateView,
    prices: Option<Map<Seq<char>, Price>>,
) -> Result<Seq<SplitView>, (Option<Address>, DateView)> {
    match native_splits(address, tx, date, prices) {
        Err(missing) => Err(missing),
        Ok(native) => match token_splits(registry, address, tx, date, prices, tx.transfers) {
            Err(missing) => Err(missing),
            Ok(tokens) => Ok(native + tokens),
        },
    }
}

/// The splits of a list of transactions, in the order of the transactions;
/// or, where prices are asked for, the first price that is missing.
pub open spec fn all_splits(
    registry: Seq<(Address, &'static str)>,
    address: Address,
    txs: Seq<TransactionView>,
    prices: Option<Map<Seq<char>, Price>>,
) -> Result<Seq<SplitView>, (Option<Address>, DateView)>
    decreases txs.len(),
{
    if txs.len() == 0 {
        Ok(Seq::empty())
    } else {
        match all_splits(registry, address, txs.drop_last(), prices) {
            Err(missing) => Err(missing),
            Ok(earlier) => match splits_of(
                registry,
                address,
                txs.last(),
                tx_date(txs.last()).unwrap(),
                prices,
            ) {
                Err(missing) => Err(missing),
                Ok(more) => Ok(earlier + more),
            },
        }
    }
}

/// The splits of an outcome: those that were built, none where a price was
/// missing.
pub open spec fn produced(outcome: Result<Seq<SplitView>, (Option<Address>, DateView)>) -> Seq<
    SplitView,
> {
    match outcome {
        Ok(splits) => splits,
        Err(_) => Seq::empty(),
    }
}

/// A missing price among the first transfers is missing among all of them.
proof fn lemma_token_failure_lasts(
    registry: Seq<(Address, &'static str)>,
    address: Address,
    tx: TransactionView,
    date: DateView,
    prices: Option<Map<Seq<char>, Price>>,
    transfers: Seq<Erc20TransferView>,
    n: int,
)
    requires
        0 <= n <= transfers.len(),
        token_splits(registry, address, tx, date, prices, transfers.take(n)) is Err,
    ensures
        token_splits(registry, address, tx, date, prices, transfers) == token_splits(
            registry,
            address,
            tx,
            date,
            prices,
            transfers.take(n),
        ),
    decreases transfers.len() - n,
{
    if n == transfers.len() {
        assert(transfers.take(n) =~= transfers);
    } else {
        assert(transfers.take(n + 1).drop_last() =~= transfers.take(n));
        lemma_token_failure_lasts(registry, address, tx, date, prices, transfers, n + 1);
    }
}

/// A missing price among the first transactions is missing among all of
/// them.
proof fn lemma_failure_lasts(
    registry: Seq<(Address, &'static str)>,
    address: Address,
    txs: Seq<TransactionView>,
    prices: Option<Map<Seq<char>, Price>>,
    n: int,
)
    requires
        0 <= n <= txs.len(),
        all_splits(registry, address, txs.take(n), prices) is Err,
    ensures
        all_splits(registry, address, txs, prices) == all_splits(
            registry,
            address,
            txs.take(n),
            prices,
        ),
    decreases txs.len() - n,
{
    if n == txs.len() {
        assert(txs.take(n) =~= txs);
    } else {
        assert(txs.take(n + 1).drop_last() =~= txs.take(n));
        lemma_failure_lasts(registry, address, txs, prices, n + 1);
    }
}

/// Where no prices are asked for, none is missing.
proof fn lemma_unvalued_tokens(
    registry: Seq<(Address, &'static str)>,
    address: Address,
    tx: TransactionView,
    date: DateView,
    transfers: Seq<Erc20TransferView>,
)
    ensures
        token_splits(registry, address, tx, date, None, transfers) is Ok,
    decreases transfers.len(),
{
    if transfers.len() > 0 {
        lemma_unvalued_tokens(registry, address, tx, date, transfers.drop_last());
    }
}

/// Where no prices are asked for, none is missing.
proof fn lemma_unvalued(
    registry: Seq<(Address, &'static str)>,
    address: Address,
    txs: Seq<TransactionView>,
)
    ensures
        all_splits(registry, address, txs, None) is Ok,
    decreases txs.len(),
{
    if txs.len() > 0 {
        lemma_unvalued(registry, address, txs.drop_last());
        lemma_unvalued_tokens(
            registry,
            address,
            txs.last(),
            tx_date(txs.last()).unwrap(),
            txs.last().transfers,
        );
    }
}

fn timestamp_secs(timestamp: u64) -> (secs: i64)
    ensures
        secs == timestamp_seconds(timestamp),
{
    if timestamp <= 0x7fff_ffff_ffff_ffff {
        timestamp as i64
    } else {
        let low: u64 = timestamp - 0x8000_0000_0000_0000;
        (low as i64) + i64::MIN
    }
}

fn describe(address: &Address, tx: &Transaction) -> (description: String)
    ensures
        description@ == description_of(*address, tx.deep_view()),
{
    let deposit = match tx.to {
        Some(to) => to == *address,
        None => false,
    };
    match &tx.tag {
        Some(tag) => {
            let mut text = if deposit {
                "from ".to_owned()
            } else {
                "to ".to_owned()
            };
            text.append(tag.as_str());
            text
        },
        None => match &tx.description {
            Some(description) => description.clone(),
            None => match &tx.category {
                Some(category) => category.clone(),
                None => if deposit {
                    "deposit".to_owned()
                } else {
                    "withdrawal".to_owned()
                },
            },
        },
    }
}

fn account(tx: &Transaction) -> (account: String)
    ensures
        account@ == account_of(tx.deep_view()),
{
    match &tx.tag {
        Some(tag) => tag.clone(),
        None => match &tx.category {
            Some(category) => category.clone(),
            None => "Unknown".to_owned(),
        },
    }
}

/// The prices of a cache, where there is one.
pub open spec fn prices_of(cache: Option<&Cache>) -> Option<Map<Seq<char>, Price>> {
    match cache {
        Some(c) => Some(c@),
        None => None,
    }
}

fn price_for(cache: Option<&Cache>, asset: Option<Address>, date: Date) -> (price: Result<
    Option<Price>,
    MissingPrice,
>)
    ensures
        (match price {
            Ok(p) => unit_price(prices_of(cache), asset, date@) == Ok::<
                Option<Price>,
                (Option<Address>, DateView),
            >(p),
            Err(missing) => unit_price(prices_of(cache), asset, date@) == Err::<
                Option<Price>,
                (Option<Address>, DateView),
            >((missing.asset, missing.date@)),
        }),
{
    match cache {
        None => Ok(None),
        Some(c) => match c.get(asset, date) {
            Some(price) => Ok(Some(price)),
            None => Err(MissingPrice { asset, date }),
        },
    }
}

fn push_splits_of(
    registry: &SymbolRegistry,
    address: &Address,
    tx: &Transaction,
    date: Date,
    cache: Option<&Cache>,
    out: &mut Vec<Split>,
) -> (done: Result<(), MissingPrice>)
    ensures
        (match done {
            Ok(()) => {
                &&& splits_of(registry@, *address, tx.deep_view(), date@, prices_of(cache)) is Ok
                &&& final(out).deep_view() == old(out).deep_view() + produced(
                    splits_of(registry@, *address, tx.deep_view(), date@, prices_of(cache)),
                )
            },
            Err(missing) => splits_of(
                registry@,
                *address,
                tx.deep_view(),
                date@,
                prices_of(cache),
            ) == Err::<Seq<SplitView>, (Option<Address>, DateView)>(
                (missing.asset, missing.date@),
            ),
        }),
{
    let ghost before = out.deep_view();
    let ghost view = tx.deep_view();
    let ghost prices = prices_of(cache);
    let description = describe(address, tx);
    let account = account(tx);
    if !tx.value.is_zero() {
        let price = match price_for(cache, None, date) {
            Ok(price) => price,
            Err(missing) => {
                return Err(missing);
            },
        };
        let split = Split {
            date,
            description: description.clone(),
            account: account.clone(),
            commodity: "ETH".to_owned(),
            amount: Amount {
                negative: tx.from == *address,
                digits: value_to_text(&tx.value, NATIVE_DECIMALS),
            },
            unit_price: price,
        };
        assert(split.deep_view() == native_split(*address, view, date@, price));
        out.push(split);
        assert(out.deep_view() =~= before + seq![split.deep_view()]);
    } else {
        assert(out.deep_view() =~= before + Seq::<SplitView>::empty());
    }
    let ghost mid = out.deep_view();
    let mut j: usize = 0;
    proof {
        assert(view.transfers.take(0) =~= Seq::<Erc20TransferView>::empty());
        assert(mid =~= mid + Seq::<SplitView>::empty());
    }
    while j < tx.transfers.len()
        invariant
            j <= tx.transfers@.len(),
            view == tx.deep_view(),
            prices == prices_of(cache),
            description@ == description_of(*address, view),
            account@ == account_of(view),
            native_splits(*address, view, date@, prices) is Ok,
            token_splits(
                registry@,
                *address,
                view,
                date@,
                prices,
                view.transfers.take(j as int),
            ) is Ok,
            out.deep_view() == mid + produced(
                token_splits(
                    registry@,
                    *address,
                    view,
                    date@,
                    prices,
                    view.transfers.take(j as int),
                ),
            ),
        decreases tx.transfers@.len() - j,
    {
        let transfer = &tx.transfers[j];
        let ghost shown = out.deep_view();
        let ghost earlier = produced(
            token_splits(registry@, *address, view, date@, prices, view.transfers.take(j as int)),
        );
        proof {
            assert(view.transfers.take(j as int + 1).drop_last() =~= view.transfers.take(j as int));
            assert(view.transfers.take(j as int + 1).last() == transfer.deep_view());
        }
        match registry.symbol(&transfer.token_contract) {
            Some(symbol) => {
                let price = match price_for(cache, Some(transfer.token_contract), date) {
                    Ok(price) => price,
                    Err(missing) => {
                        proof {
                            assert(token_splits(
                                registry@,
                                *address,
                                view,
                                date@,
                                prices,
                                view.transfers.take(j as int + 1),
                            ) == Err::<Seq<SplitView>, (Option<Address>, DateView)>(
                                (missing.asset, missing.date@),
                            ));
                            lemma_token_failure_lasts(
                                registry@,
                                *address,
                                view,
                                date@,
                                prices,
                                view.transfers,
                                j as int + 1,
                            );
                        }
                        return Err(missing);
                    },
                };
                let decimals = match parse_u32(transfer.token_decimal.as_str()) {
                    Some(d) => d,
                    None => NATIVE_DECIMALS,
                };
                let split = Split {
                    date,
                    description: description.clone(),
                    account: account.clone(),
                    commodity: symbol.to_owned(),
                    amount: Amount {
                        negative: transfer.from == *address,
                        digits: value_to_text(&transfer.value, decimals),
                    },
                    unit_price: price,
                };
                assert(split.deep_view() == token_split(
                    *address,
                    view,
                    date@,
                    transfer.deep_view(),
                    symbol@,
                    price,
                ));
                out.push(split);
                proof {
                    assert(out.deep_view() =~= shown.push(split.deep_view()));
                    assert(shown.push(split.deep_view()) =~= mid + earlier.push(
                        split.deep_view(),
                    ));
                }
            },
            None => {},
        }
        j = j + 1;
    }
    proof {
        assert(view.transfers.take(j as int) =~= view.transfers);
        let native = produced(native_splits(*address, view, date@, prices));
        let tokens = produced(
            token_splits(registry@, *address, view, date@, prices, view.transfers),
        );
        assert(mid == before + native);
        assert(out.deep_view() =~= before + (native + tokens));
    }
    Ok(())
}

/// What one more transaction adds to the splits.
proof fn lemma_next_transaction(
    registry: Seq<(Address, &'static str)>,
    address: Address,
    txs: Seq<TransactionView>,
    prices: Option<Map<Seq<char>, Price>>,
    i: int,
)
    requires
        0 <= i < txs.len(),
        all_splits(registry, address, txs.take(i), prices) is Ok,
    ensures
        (all_splits(registry, address, txs.take(i + 1), prices) == match splits_of(
            registry,
            address,
            txs[i],
            tx_date(txs[i]).unwrap(),
            prices,
        ) {
            Err(missing) => Err::<Seq<SplitView>, (Option<Address>, DateView)>(missing),
            Ok(more) => Ok(produced(all_splits(registry, address, txs.take(i), prices)) + more),
        }),
{
    assert(txs.take(i + 1).drop_last() =~= txs.take(i));
    assert(txs.take(i + 1).last() == txs[i]);
}

fn build_splits(
    registry: &SymbolRegistry,
    address: Address,
    txs: &[Transaction],
    cache: Option<&Cache>,
) -> (built: Result<Vec<Split>, MissingPrice>)
    requires
        all_dated(txs.deep_view()),
    ensures
        (match built {
            Ok(splits) => all_splits(registry@, address, txs.deep_view(), prices_of(cache)) == Ok::<
                Seq<SplitView>,
                (Option<Address>, DateView),
            >(splits.deep_view()),
            Err(missing) => all_splits(registry@, address, txs.deep_view(), prices_of(cache))
                == Err::<Seq<SplitView>, (Option<Address>, DateView)>(
                (missing.asset, missing.date@),
            ),
        }),
{
    let ghost views = txs.deep_view();
    let ghost prices = prices_of(cache);
    let mut out: Vec<Split> = Vec::new();
    let mut i: usize = 0;
    proof {
        assert(out.deep_view() =~= Seq::<SplitView>::empty());
        assert(views.take(0) =~= Seq::<TransactionView>::empty());
    }
    while i < txs.len()
        invariant
            i <= txs@.len(),
            views == txs.deep_view(),
            prices == prices_of(cache),
            all_dated(views),
            all_splits(registry@, address, views.take(i as int), prices) == Ok::<
                Seq<SplitView>,
                (Option<Address>, DateView),
            >(out.deep_view()),
        decreases txs@.len() - i,
    {
        let tx = &txs[i];
        proof {
            assert(views[i as int] == tx.deep_view());
            assert(tx_date(views[i as int]) is Some);
            lemma_next_transaction(registry@, address, views, prices, i as int);
        }
        let found = Date::from_timestamp(timestamp_secs(tx.timestamp));
        let date = found.unwrap();
        match push_splits_of(registry, &address, tx, date, cache, &mut out) {
            Ok(()) => {},
            Err(missing) => {
                proof {
                    lemma_failure_lasts(registry@, address, views, prices, i as int + 1);
                }
                return Err(missing);
            },
        }
        i = i + 1;
    }
    assert(views.take(i as int) =~= views);
    Ok(out)
}

/// Convert blockchain transactions into ledger splits, with the symbols of
/// the given registry.
pub fn from_chain_with(registry: &SymbolRegistry, address: Address, txs: &[Transaction]) -> (splits:
    Vec<Split>)
    requires
        all_dated(txs.deep_view()),
    ensures
        all_splits(registry@, address, txs.deep_view(), None) == Ok::<
            Seq<SplitView>,
            (Option<Address>, DateView),
        >(splits.deep_view()),
{
    proof {
        lemma_unvalued(registry@, address, txs.deep_view());
    }
    build_splits(registry, address, txs, None).unwrap()
}

/// Convert blockchain transactions into ledger splits: for each transaction
/// the split of its native value, unless that is zero, then one split for
/// each transfer of a trusted token, in the order of the transfers.
pub fn from_chain(address: Address, txs: &[Transaction]) -> (splits: Vec<Split>)
    requires
        all_dated(txs.deep_view()),
    ensures
        all_splits(known_tokens(), address, txs.deep_view(), None) == Ok::<
            Seq<SplitView>,
            (Option<Address>, DateView),
        >(splits.deep_view()),
{
    let registry = SymbolRegistry::known();
    from_chain_with(&registry, address, txs)
}

/// Convert blockchain transactions into valued ledger splits, with the
/// symbols of the given registry: the splits of [`from_chain_with`], each
/// with the unit price that the cache holds for its asset on its day. Where
/// the cache lacks one of these prices, the first that is missing is
/// returned instead, and nothing is built.
pub fn from_chain_valued_with(
    registry: &SymbolRegistry,
    address: Address,
    txs: &[Transaction],
    cache: &Cache,
) -> (valued: Result<Vec<Split>, MissingPrice>)
    requires
        all_dated(txs.deep_view()),
    ensures
        (match valued {
            Ok(splits) => all_splits(registry@, address, txs.deep_view(), Some(cache@)) == Ok::<
                Seq<SplitView>,
                (Option<Address>, DateView),
            >(splits.deep_view()),
            Err(missing) => all_splits(registry@, address, txs.deep_view(), Some(cache@)) == Err::<
                Seq<SplitView>,
                (Option<Address>, DateView),
            >((missing.asset, missing.date@)),
        }),
{
    build_splits(registry, address, txs, Some(cache))
}

/// Convert blockchain transactions into valued ledger splits: the splits of
/// [`from_chain`], each with the unit price that the cache holds for its
/// asset on its day. Where the cache lacks one of these prices, the first
/// that is missing is returned instead, and nothing is built.
pub fn from_chain_valued(address: Address, txs: &[Transaction], cache: &Cache) -> (valued: Result<
    Vec<Split>,
    MissingPrice,
>)
    requires
        all_dated(txs.deep_view()),
    ensures
        (match valued {
            Ok(splits) => all_splits(known_tokens(), address, txs.deep_view(), Some(cache@))
                == Ok::<Seq<SplitView>, (Option<Address>, DateView)>(splits.deep_view()),
            Err(missing) => all_splits(known_tokens(), address, txs.deep_view(), Some(cache@))
                == Err::<Seq<SplitView>, (Option<Address>, DateView)>(
                (missing.asset, missing.date@),
            ),
        }),
{
    let registry = SymbolRegistry::known();
    from_chain_valued_with(&registry, address, txs, cache)
}

/// Whether every transaction falls on a date that the calendar reaches.
pub fn has_dates(txs: &[Transaction]) -> (dated: bool)
    ensures
        dated == all_dated(txs.deep_view()),
{
    let mut i: usize = 0;
    while i < txs.len()
        invariant
            i <= txs@.len(),
            forall|k: int| 0 <= k < i ==> tx_date(#[trigger] txs.deep_view()[k]) is Some,
        decreases txs@.len() - i,
    {
        assert(txs.deep_view()[i as int] == txs@[i as int].deep_view());
        if Date::from_timestamp(timestamp_secs(txs[i].timestamp)).is_none() {
            return false;
        }
        i = i + 1;
    }
    true
}

/// The splits of [`from_chain`], or `None` where a transaction falls on no
/// date that the calendar reaches.
pub fn try_from_chain(address: Address, txs: &[Transaction]) -> (splits: Option<Vec<Split>>)
    ensures
        splits is Some <==> all_dated(txs.deep_view()),
        splits matches Some(built) ==> all_splits(known_tokens(), address, txs.deep_view(), None)
            == Ok::<Seq<SplitView>, (Option<Address>, DateView)>(built.deep_view()),
{
    if has_dates(txs) {
        Some(from_chain(address, txs))
    } else {
        None
    }
}

/// The outcome of [`from_chain_valued`], or `None` where a transaction falls
/// on no date that the calendar reaches.
pub fn try_from_chain_valued(address: Address, txs: &[Transaction], cache: &Cache) -> (valued:
    Option<Result<Vec<Split>, MissingPrice>>)
    ensures
        valued is Some <==> all_dated(txs.deep_view()),
        valued matches Some(Ok(splits)) ==> all_splits(
            known_tokens(),
            address,
            txs.deep_view(),
            Some(cache@),
        ) == Ok::<Seq<SplitView>, (Option<Address>, DateView)>(splits.deep_view()),
        valued matches Some(Err(missing)) ==> all_splits(
            known_tokens(),
            address,
            txs.deep_view(),
            Some(cache@),
        ) == Err::<Seq<SplitView>, (Option<Address>, DateView)>((missing.asset, missing.date@)),
{
    if has_dates(txs) {
        Some(from_chain_valued(address, txs, cache))
    } else {
        None
    }
}

/// A transfer of a contract that the registry does not list adds no split.
pub proof fn law_unlisted_transfer_adds_nothing(
    registry: Seq<(Address, &'static str)>,
    address: Address,
    tx: TransactionView,
    date: DateView,
    prices: Option<Map<Seq<char>, Price>>,
    transfers: Seq<Erc20TransferView>,
    transfer: Erc20TransferView,
)
    requires
        symbol_in(registry, transfer.token_contract) is None,
    ensures
        token_splits(registry, address, tx, date, prices, transfers.push(transfer))
            == token_splits(registry, address, tx, date, prices, transfers),
{
    assert(transfers.push(transfer).drop_last() =~= transfers);
}

/// A transfer of a contract that the registry lists adds one split, under
/// the symbol of the registry and with the sign of the transfer's sender,
/// whatever the transfer says of its own name and symbol.
pub proof fn law_listed_transfer_adds_one_split(
    registry: Seq<(Address, &'static str)>,
    address: Address,
    tx: TransactionView,
    date: DateView,
    transfers: Seq<Erc20TransferView>,
    transfer: Erc20TransferView,
)
    requires
        symbol_in(registry, transfer.token_contract) is Some,
    ensures
        ({
            let before = produced(token_splits(registry, address, tx, date, None, transfers));
            let after = produced(
                token_splits(registry, address, tx, date, None, transfers.push(transfer)),
            );
            &&& after.len() == before.len() + 1
            &&& after.drop_last() == before
            &&& after.last().commodity == symbol_in(registry, transfer.token_contract).unwrap()
            &&& after.last().amount.negative == (transfer.from == address)
        }),
{
    assert(transfers.push(transfer).drop_last() =~= transfers);
    lemma_unvalued_tokens(registry, address, tx, date, transfers);
    let before = produced(token_splits(registry, address, tx, date, None, transfers));
    let after = produced(token_splits(registry, address, tx, date, None, transfers.push(transfer)));
    assert(after.drop_last() =~= before);
}

/// A transaction has one native split where its value is not zero, and none
/// where it is; the split is negative where the tracked address is the
/// sender.
pub proof fn law_native_split(
    registry: Seq<(Address, &'static str)>,
    address: Address,
    tx: TransactionView,
    date: DateView,
)
    ensures
        ({
            let native = produced(native_splits(address, tx, date, None));
            let all = produced(splits_of(registry, address, tx, date, None));
            let tokens = produced(token_splits(registry, address, tx, date, None, tx.transfers));
            &&& all == native + tokens
            &&& tx.value.value() == 0 ==> native.len() == 0
            &&& tx.value.value() != 0 ==> native.len() == 1 && native[0].commodity == "ETH"@
                && native[0].amount.negative == (tx.from == address)
        }),
{
    lemma_unvalued_tokens(registry, address, tx, date, tx.transfers);
}

} // verus!
