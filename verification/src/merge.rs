//! Grouping token-transfer events by transaction hash and attaching each
//! group to the transaction it belongs to.

use crate::blockchain::{
    Erc20TokenTransferEvent, Erc20TokenTransferEventView, Erc20Transfer, Erc20TransferView,
    NormalTransaction, NormalTransactionView, Transaction, TransactionView,
};
use crate::primitives::H256;
use crate::text::{parse_u64, parsed_unsigned};
use vstd::prelude::*;

verus! {

/// The transfer that an event of the token-transfer stream describes.
pub open spec fn transfer_of(event: Erc20TokenTransferEventView) -> Erc20TransferView {
    Erc20TransferView {
        token_contract: event.contract_address,
        from: event.from,
        to: event.to,
        value: event.value,
        token_name: event.token_name,
        token_symbol: event.token_symbol,
        token_decimal: event.token_decimal,
    }
}

/// The transfers of the events that carry `hash`, in the order of the events.
pub open spec fn transfers_of(events: Seq<Erc20TokenTransferEventView>, hash: H256) -> Seq<
    Erc20TransferView,
>
    decreases events.len(),
{
    if events.len() == 0 {
        Seq::empty()
    } else if events.last().hash == hash {
        transfers_of(events.drop_last(), hash).push(transfer_of(events.last()))
    } else {
        transfers_of(events.drop_last(), hash)
    }
}

/// Whether some event carries `hash`.
pub open spec fn occurs(events: Seq<Erc20TokenTransferEventView>, hash: H256) -> bool {
    exists|j: int| 0 <= j < events.len() && (#[trigger] events[j]).hash == hash
}

/// The groups that the events fall into: one for each hash that occurs.
pub open spec fn grouped(events: Seq<Erc20TokenTransferEventView>) -> Map<
    H256,
    Seq<Erc20TransferView>,
> {
    Map::new(|hash: H256| occurs(events, hash), |hash: H256| transfers_of(events, hash))
}

/// Without an event that carries `hash` there is no transfer under it.
pub proof fn lemma_no_event_no_transfer(events: Seq<Erc20TokenTransferEventView>, hash: H256)
    requires
        !occurs(events, hash),
    ensures
        transfers_of(events, hash) == Seq::<Erc20TransferView>::empty(),
    decreases events.len(),
{
    if events.len() > 0 {
        assert(events[events.len() - 1].hash != hash);
        assert forall|j: int| 0 <= j < events.drop_last().len() implies (
        #[trigger] events.drop_last()[j]).hash != hash by {
            assert(events[j].hash != hash);
        }
        lemma_no_event_no_transfer(events.drop_last(), hash);
    }
}

/// What one more event adds to the transfers under a hash and to the hashes
/// that occur.
pub proof fn lemma_next_event(events: Seq<Erc20TokenTransferEventView>, j: int, hash: H256)
    requires
        0 <= j < events.len(),
    ensures
        (transfers_of(events.take(j + 1), hash) == if events[j].hash == hash {
            transfers_of(events.take(j), hash).push(transfer_of(events[j]))
        } else {
            transfers_of(events.take(j), hash)
        }),
        occurs(events.take(j + 1), hash) <==> occurs(events.take(j), hash) || events[j].hash
            == hash,
{
    let longer = events.take(j + 1);
    let shorter = events.take(j);
    assert(longer.drop_last() =~= shorter);
    assert(longer.last() == events[j]);
    if occurs(longer, hash) {
        let k = choose|k: int| 0 <= k < longer.len() && (#[trigger] longer[k]).hash == hash;
        if k < j {
            assert(shorter[k].hash == hash);
        }
    }
    if occurs(shorter, hash) {
        let k = choose|k: int| 0 <= k < shorter.len() && (#[trigger] shorter[k]).hash == hash;
        assert(longer[k].hash == hash);
    }
    if events[j].hash == hash {
        assert(longer[j].hash == hash);
    }
}

/// Token transfers collected under the hash of their transaction: at most one
/// group for each hash.
pub struct TransferGroups {
    entries: Vec<(H256, Vec<Erc20Transfer>)>,
}

/// Whether one of the entries is filed under `hash`.
spec fn has_group(entries: Seq<(H256, Vec<Erc20Transfer>)>, hash: H256) -> bool {
    exists|k: int| 0 <= k < entries.len() && (#[trigger] entries[k]).0 == hash
}

/// The place of an entry that is filed under `hash`, if there is one.
spec fn group_index(entries: Seq<(H256, Vec<Erc20Transfer>)>, hash: H256) -> int {
    choose|k: int| 0 <= k < entries.len() && (#[trigger] entries[k]).0 == hash
}

/// Whether no two entries are filed under the same hash.
spec fn distinct_groups(entries: Seq<(H256, Vec<Erc20Transfer>)>) -> bool {
    forall|a: int, b: int|
        0 <= a < b < entries.len() ==> (#[trigger] entries[a]).0 != (#[trigger] entries[b]).0
}

/// The entries as a map from hash to the transfers filed under it.
spec fn groups_map(entries: Seq<(H256, Vec<Erc20Transfer>)>) -> Map<
    H256,
    Seq<Erc20TransferView>,
> {
    Map::new(
        |hash: H256| has_group(entries, hash),
        |hash: H256| entries[group_index(entries, hash)].1.deep_view(),
    )
}

fn find_group(entries: &Vec<(H256, Vec<Erc20Transfer>)>, hash: &H256) -> (place: Option<usize>)
    ensures
        (match place {
            Some(k) => k < entries@.len() && entries@[k as int].0 == *hash,
            None => !has_group(entries@, *hash),
        }),
{
    let mut k: usize = 0;
    while k < entries.len()
        invariant
            k <= entries@.len(),
            forall|i: int| 0 <= i < k ==> (#[trigger] entries@[i]).0 != *hash,
        decreases entries@.len() - k,
    {
        if entries[k].0 == *hash {
            return Some(k);
        }
        k = k + 1;
    }
    None
}

impl TransferGroups {
    /// Whether no hash has two groups. Every value of the type is so.
    #[verifier::type_invariant]
    pub closed spec fn wf(&self) -> bool {
        distinct_groups(self.entries@)
    }

    /// The groups as a map from hash to the transfers collected under it.
    pub closed spec fn view(&self) -> Map<H256, Seq<Erc20TransferView>> {
        groups_map(self.entries@)
    }

    /// Takes the group filed under `hash` out, if there is one.
    pub fn remove(&mut self, hash: &H256) -> (group: Option<Vec<Erc20Transfer>>)
        ensures
            (match group {
                Some(transfers) => old(self)@.contains_key(*hash) && transfers.deep_view() == old(
                    self,
                )@[*hash],
                None => !old(self)@.contains_key(*hash),
            }),
            final(self)@ == old(self)@.remove(*hash),
    {
        proof {
            use_type_invariant(&*self);
        }
        let ghost before = self.entries@;
        let mut entries: Vec<(H256, Vec<Erc20Transfer>)> = Vec::new();
        core::mem::swap(&mut self.entries, &mut entries);
        match find_group(&entries, hash) {
            Some(k) => {
                let entry = entries.remove(k);
                proof {
                    let after = entries@;
                    assert(before[k as int].0 == *hash);
                    assert(group_index(before, *hash) == k);
                    assert forall|a: int, b: int| 0 <= a < b < after.len() implies (
                    #[trigger] after[a]).0 != (#[trigger] after[b]).0 by {
                        let a0 = if a < k { a } else { a + 1 };
                        let b0 = if b < k { b } else { b + 1 };
                        assert(after[a] == before[a0]);
                        assert(after[b] == before[b0]);
                    }
                    assert forall|h: H256| has_group(after, h) <==> (has_group(before, h) && h
                        != *hash) by {
                        if has_group(after, h) {
                            let i = group_index(after, h);
                            let i0 = if i < k { i } else { i + 1 };
                            assert(after[i] == before[i0]);
                            assert(before[i0].0 == h);
                        }
                        if has_group(before, h) && h != *hash {
                            let i0 = group_index(before, h);
                            let i = if i0 < k { i0 } else { i0 - 1 };
                            assert(after[i] == before[i0]);
                        }
                    }
                    assert forall|h: H256| has_group(after, h) implies after[group_index(
                        after,
                        h,
                    )] == before[group_index(before, h)] by {
                        let i = group_index(after, h);
                        let i0 = if i < k { i } else { i + 1 };
                        assert(after[i] == before[i0]);
                        assert(before[i0].0 == h);
                        assert(has_group(before, h));
                        assert(group_index(before, h) == i0);
                    }
                    assert(groups_map(after) =~= groups_map(before).remove(*hash));
                }
                self.entries = entries;
                Some(entry.1)
            },
            None => {
                assert(groups_map(before) =~= groups_map(before).remove(*hash));
                self.entries = entries;
                None
            },
        }
    }
}

/// Files each event's transfer under the event's transaction hash, keeping
/// under each hash the order in which the events came.
pub fn group_transfers(events: Vec<Erc20TokenTransferEvent>) -> (groups: TransferGroups)
    ensures
        groups@ == grouped(events.deep_view()),
{
    let ghost ev = events.deep_view();
    let mut entries: Vec<(H256, Vec<Erc20Transfer>)> = Vec::new();
    let mut j: usize = 0;
    while j < events.len()
        invariant
            j <= events@.len(),
            ev == events.deep_view(),
            distinct_groups(entries@),
            forall|k: int|
                0 <= k < entries@.len() ==> (#[trigger] entries@[k]).1.deep_view() == transfers_of(
                    ev.take(j as int),
                    entries@[k].0,
                ),
            forall|h: H256|
                #![trigger has_group(entries@, h)]
                #![trigger occurs(ev.take(j as int), h)]
                has_group(entries@, h) <==> occurs(ev.take(j as int), h),
        decreases events@.len() - j,
    {
        let event = &events[j];
        let hash = event.hash;
        let transfer = Erc20Transfer {
            token_contract: event.contract_address,
            from: event.from,
            to: event.to,
            value: event.value,
            token_name: event.token_name.clone(),
            token_symbol: event.token_symbol.clone(),
            token_decimal: event.token_decimal.clone(),
        };
        assert(ev[j as int] == events@[j as int].deep_view());
        assert(transfer.deep_view() == transfer_of(ev[j as int]));
        let ghost before = entries@;
        match find_group(&entries, &hash) {
            Some(k) => {
                entries[k].1.push(transfer);
                proof {
                    assert(entries@[k as int].1.deep_view() =~= before[k as int].1.deep_view().push(
                        transfer.deep_view(),
                    ));
                    assert forall|i: int| 0 <= i < entries@.len() implies (
                    #[trigger] entries@[i]).0 == before[i].0 by {}
                    assert forall|h: H256| #[trigger]
                        has_group(entries@, h) <==> has_group(before, h) by {
                        if has_group(entries@, h) {
                            let i = group_index(entries@, h);
                            assert(before[i].0 == h);
                        }
                        if has_group(before, h) {
                            let i = group_index(before, h);
                            assert(entries@[i].0 == h);
                        }
                    }
                    assert(has_group(before, hash));
                }
            },
            None => {
                let mut group: Vec<Erc20Transfer> = Vec::new();
                group.push(transfer);
                entries.push((hash, group));
                proof {
                    lemma_no_event_no_transfer(ev.take(j as int), hash);
                    assert(group.deep_view() =~= Seq::<Erc20TransferView>::empty().push(
                        transfer.deep_view(),
                    ));
                    let last = entries@.len() - 1;
                    assert forall|h: H256| #[trigger]
                        has_group(entries@, h) <==> has_group(before, h) || h == hash by {
                        if has_group(entries@, h) {
                            let i = group_index(entries@, h);
                            if i < last {
                                assert(before[i].0 == h);
                            }
                        }
                        if has_group(before, h) {
                            let i = group_index(before, h);
                            assert(entries@[i].0 == h);
                        }
                        if h == hash {
                            assert(entries@[last].0 == h);
                        }
                    }
                    assert forall|a: int, b: int| 0 <= a < b < entries@.len() implies (
                    #[trigger] entries@[a]).0 != (#[trigger] entries@[b]).0 by {
                        if b == last {
                            assert(before[a].0 != hash);
                        } else {
                            assert(before[a].0 != before[b].0);
                        }
                    }
                }
            },
        }
        proof {
            assert forall|k: int| 0 <= k < entries@.len() implies (
            #[trigger] entries@[k]).1.deep_view() == transfers_of(
                ev.take(j as int + 1),
                entries@[k].0,
            ) by {
                lemma_next_event(ev, j as int, entries@[k].0);
                if k < before.len() {
                    assert(before[k].0 == entries@[k].0);
                }
            }
            assert forall|h: H256|
                #![trigger has_group(entries@, h)]
                #![trigger occurs(ev.take(j as int + 1), h)]
                has_group(entries@, h) <==> occurs(ev.take(j as int + 1), h) by {
                lemma_next_event(ev, j as int, h);
                assert(has_group(before, h) <==> occurs(ev.take(j as int), h));
            }
        }
        j = j + 1;
    }
    proof {
        assert(ev.take(j as int) =~= ev);
        assert(groups_map(entries@) =~= grouped(ev));
    }
    TransferGroups { entries }
}

/// Whether a record has the fields without which it cannot be kept: its hash
/// and its sender.
pub open spec fn is_complete(raw: NormalTransactionView) -> bool {
    raw.hash is Some && raw.from is Some
}

/// Whether a complete record among `txs` carries `hash`.
pub open spec fn claimed(txs: Seq<NormalTransactionView>, hash: H256) -> bool {
    exists|i: int|
        0 <= i < txs.len() && is_complete(#[trigger] txs[i]) && txs[i].hash == Some(hash)
}

/// The number that `text` spells, or zero where it spells none that fits.
pub open spec fn number_or_zero(text: Seq<char>) -> u64 {
    match parsed_unsigned(text, u64::MAX as nat) {
        Some(v) => v as u64,
        None => 0,
    }
}

/// The transaction that a complete record becomes, with the given transfers.
pub open spec fn transaction_of(
    raw: NormalTransactionView,
    transfers: Seq<Erc20TransferView>,
) -> TransactionView {
    TransactionView {
        hash: raw.hash.unwrap(),
        block_number: match raw.block_number {
            Some(n) => n,
            None => 0,
        },
        timestamp: number_or_zero(raw.time_stamp),
        from: raw.from.unwrap(),
        to: raw.to,
        value: raw.value,
        tag: None,
        category: None,
        description: None,
        transfers,
    }
}

/// The merged list: the complete records in their order, each with the
/// transfers of the events that carry its hash, unless an earlier complete
/// record with the same hash has taken them.
pub open spec fn merged(
    txs: Seq<NormalTransactionView>,
    events: Seq<Erc20TokenTransferEventView>,
) -> Seq<TransactionView>
    decreases txs.len(),
{
    if txs.len() == 0 {
        Seq::empty()
    } else if !is_complete(txs.last()) {
        merged(txs.drop_last(), events)
    } else if claimed(txs.drop_last(), txs.last().hash.unwrap()) {
        merged(txs.drop_last(), events).push(transaction_of(txs.last(), Seq::empty()))
    } else {
        merged(txs.drop_last(), events).push(
            transaction_of(txs.last(), transfers_of(events, txs.last().hash.unwrap())),
        )
    }
}

/// What one more record adds to the hashes that are claimed.
pub proof fn lemma_next_record(txs: Seq<NormalTransactionView>, i: int, hash: H256)
    requires
        0 <= i < txs.len(),
    ensures
        claimed(txs.take(i + 1), hash) <==> claimed(txs.take(i), hash) || (is_complete(txs[i])
            && txs[i].hash == Some(hash)),
{
    let longer = txs.take(i + 1);
    let shorter = txs.take(i);
    if claimed(longer, hash) {
        let k = choose|k: int|
            0 <= k < longer.len() && is_complete(#[trigger] longer[k]) && longer[k].hash == Some(
                hash,
            );
        if k < i {
            assert(is_complete(shorter[k]) && shorter[k].hash == Some(hash));
        }
    }
    if claimed(shorter, hash) {
        let k = choose|k: int|
            0 <= k < shorter.len() && is_complete(#[trigger] shorter[k]) && shorter[k].hash
                == Some(hash);
        assert(is_complete(longer[k]) && longer[k].hash == Some(hash));
    }
    if is_complete(txs[i]) && txs[i].hash == Some(hash) {
        assert(is_complete(longer[i]) && longer[i].hash == Some(hash));
    }
}

/// Builds the merged transaction list from the collected records of both
/// streams. Records without hash or sender are dropped; the others keep
/// their order, and each takes the transfers collected under its hash.
pub fn merge_transfers(txs: Vec<NormalTransaction>, events: Vec<Erc20TokenTransferEvent>) -> (out:
    Vec<Transaction>)
    ensures
        out.deep_view() == merged(txs.deep_view(), events.deep_view()),
{
    let ghost tv = txs.deep_view();
    let ghost ev = events.deep_view();
    let mut groups = group_transfers(events);
    let mut out: Vec<Transaction> = Vec::new();
    let mut i: usize = 0;
    assert(out.deep_view() =~= merged(tv.take(0), ev));
    while i < txs.len()
        invariant
            i <= txs@.len(),
            tv == txs.deep_view(),
            out.deep_view() == merged(tv.take(i as int), ev),
            forall|h: H256| #[trigger]
                groups@.contains_key(h) <==> occurs(ev, h) && !claimed(tv.take(i as int), h),
            forall|h: H256| #[trigger]
                groups@.contains_key(h) ==> groups@[h] == transfers_of(ev, h),
        decreases txs@.len() - i,
    {
        let raw = &txs[i];
        let ghost shorter = tv.take(i as int);
        let ghost longer = tv.take(i as int + 1);
        proof {
            assert(longer.drop_last() =~= shorter);
            assert(longer.last() == tv[i as int]);
            assert(tv[i as int] == raw.deep_view());
            assert forall|h: H256|
                claimed(longer, h) <==> claimed(shorter, h) || (is_complete(tv[i as int])
                    && tv[i as int].hash == Some(h)) by {
                lemma_next_record(tv, i as int, h);
            }
        }
        let ghost held = groups@;
        match (raw.hash, raw.from) {
            (Some(hash), Some(from)) => {
                let block_number = match raw.block_number {
                    Some(n) => n,
                    None => 0,
                };
                let timestamp = match parse_u64(raw.time_stamp.as_str()) {
                    Some(t) => t,
                    None => 0,
                };
                let transfers = match groups.remove(&hash) {
                    Some(group) => group,
                    None => {
                        let none: Vec<Erc20Transfer> = Vec::new();
                        proof {
                            assert(none.deep_view() =~= Seq::<Erc20TransferView>::empty());
                            if !claimed(shorter, hash) {
                                lemma_no_event_no_transfer(ev, hash);
                            }
                        }
                        none
                    },
                };
                let tx = Transaction {
                    hash,
                    block_number,
                    timestamp,
                    from,
                    to: raw.to,
                    value: raw.value,
                    tag: None,
                    category: None,
                    description: None,
                    transfers,
                };
                let ghost earlier = out.deep_view();
                out.push(tx);
                assert(out.deep_view() =~= earlier.push(tx.deep_view()));
            },
            _ => {},
        }
        assert forall|h: H256| #[trigger]
            groups@.contains_key(h) <==> occurs(ev, h) && !claimed(longer, h) by {
            assert(held.contains_key(h) <==> occurs(ev, h) && !claimed(shorter, h));
        }
        i = i + 1;
    }
    assert(tv.take(i as int) =~= tv);
    out
}

/// Every transfer under a hash comes from an event that carries that hash.
pub proof fn lemma_transfer_has_event(
    events: Seq<Erc20TokenTransferEventView>,
    hash: H256,
    j: int,
) -> (k: int)
    requires
        0 <= j < transfers_of(events, hash).len(),
    ensures
        0 <= k < events.len(),
        events[k].hash == hash,
        transfer_of(events[k]) == transfers_of(events, hash)[j],
    decreases events.len(),
{
    let earlier = transfers_of(events.drop_last(), hash);
    if events.last().hash == hash && j == earlier.len() {
        events.len() - 1
    } else {
        lemma_transfer_has_event(events.drop_last(), hash, j)
    }
}

/// No transfer leaves its hash: each transfer of a merged transaction is the
/// transfer of an event that carries the hash of that very transaction.
pub proof fn law_transfers_stay_under_their_hash(
    txs: Seq<NormalTransactionView>,
    events: Seq<Erc20TokenTransferEventView>,
    i: int,
    j: int,
) -> (k: int)
    requires
        0 <= i < merged(txs, events).len(),
        0 <= j < merged(txs, events)[i].transfers.len(),
    ensures
        0 <= k < events.len(),
        events[k].hash == merged(txs, events)[i].hash,
        transfer_of(events[k]) == merged(txs, events)[i].transfers[j],
    decreases txs.len(),
{
    let earlier = merged(txs.drop_last(), events);
    if i < earlier.len() {
        law_transfers_stay_under_their_hash(txs.drop_last(), events, i, j)
    } else {
        lemma_transfer_has_event(events, txs.last().hash.unwrap(), j)
    }
}

/// The merged list keeps the complete records, all of them and in their
/// order: the transaction at each place is made from the complete record at
/// that place, and differs from it by its transfers at most.
pub proof fn law_merge_keeps_complete_records_in_order(
    txs: Seq<NormalTransactionView>,
    events: Seq<Erc20TokenTransferEventView>,
)
    ensures
        merged(txs, events).len() == txs.filter(|raw: NormalTransactionView| is_complete(raw)).len(),
        forall|i: int|
            0 <= i < merged(txs, events).len() ==> (#[trigger] merged(txs, events)[i])
                == transaction_of(
                txs.filter(|raw: NormalTransactionView| is_complete(raw))[i],
                merged(txs, events)[i].transfers,
            ),
    decreases txs.len(),
{
    reveal(Seq::filter);
    let complete = |raw: NormalTransactionView| is_complete(raw);
    if txs.len() > 0 {
        law_merge_keeps_complete_records_in_order(txs.drop_last(), events);
        let earlier = merged(txs.drop_last(), events);
        let kept = txs.drop_last().filter(complete);
        assert forall|i: int| 0 <= i < merged(txs, events).len() implies (#[trigger] merged(
            txs,
            events,
        )[i]) == transaction_of(txs.filter(complete)[i], merged(txs, events)[i].transfers) by {
            if i < earlier.len() {
                assert(merged(txs, events)[i] == earlier[i]);
                assert(txs.filter(complete)[i] == kept[i]);
            }
        }
    }
}

/// Every merged transaction carries the hash of a complete record.
pub proof fn lemma_merged_hash_is_claimed(
    txs: Seq<NormalTransactionView>,
    events: Seq<Erc20TokenTransferEventView>,
    i: int,
)
    requires
        0 <= i < merged(txs, events).len(),
    ensures
        claimed(txs, merged(txs, events)[i].hash),
    decreases txs.len(),
{
    let earlier = merged(txs.drop_last(), events);
    if i < earlier.len() {
        lemma_merged_hash_is_claimed(txs.drop_last(), events, i);
        let hash = earlier[i].hash;
        let k = choose|k: int|
            0 <= k < txs.drop_last().len() && is_complete(#[trigger] txs.drop_last()[k])
                && txs.drop_last()[k].hash == Some(hash);
        assert(is_complete(txs[k]) && txs[k].hash == Some(hash));
    } else {
        let last = txs.len() - 1;
        assert(is_complete(txs[last]) && txs[last].hash == Some(merged(txs, events)[i].hash));
    }
}

/// A group of transfers is handed out once: of two merged transactions with
/// the same hash, the later one has no transfers.
pub proof fn law_group_is_attached_once(
    txs: Seq<NormalTransactionView>,
    events: Seq<Erc20TokenTransferEventView>,
    i: int,
    j: int,
)
    requires
        0 <= i < j < merged(txs, events).len(),
        merged(txs, events)[i].hash == merged(txs, events)[j].hash,
    ensures
        merged(txs, events)[j].transfers.len() == 0,
    decreases txs.len(),
{
    let earlier = merged(txs.drop_last(), events);
    if j < earlier.len() {
        law_group_is_attached_once(txs.drop_last(), events, i, j);
    } else {
        lemma_merged_hash_is_claimed(txs.drop_last(), events, i);
    }
}

/// Where every record is complete, the merged list has one transaction for
/// each record, in the order of the records and with the record's hash:
/// nothing is dropped, doubled or moved.
pub proof fn law_complete_records_are_all_kept(
    txs: Seq<NormalTransactionView>,
    events: Seq<Erc20TokenTransferEventView>,
)
    requires
        forall|i: int| 0 <= i < txs.len() ==> is_complete(#[trigger] txs[i]),
    ensures
        merged(txs, events).len() == txs.len(),
        forall|i: int|
            0 <= i < txs.len() ==> (#[trigger] merged(txs, events)[i]) == transaction_of(
                txs[i],
                merged(txs, events)[i].transfers,
            ),
    decreases txs.len(),
{
    if txs.len() > 0 {
        let earlier = txs.drop_last();
        assert forall|i: int| 0 <= i < earlier.len() implies is_complete(#[trigger] earlier[i]) by {
            assert(earlier[i] == txs[i]);
        }
        law_complete_records_are_all_kept(earlier, events);
        assert(is_complete(txs[txs.len() - 1]));
        assert forall|i: int| 0 <= i < txs.len() implies (#[trigger] merged(txs, events)[i])
            == transaction_of(txs[i], merged(txs, events)[i].transfers) by {
            if i < earlier.len() {
                assert(merged(txs, events)[i] == merged(earlier, events)[i]);
                assert(earlier[i] == txs[i]);
            }
        }
    }
}

} // verus!
