//! Event extractor for DID-claim events.
//!
//! The handler scans a checkpoint's transactions in order and, within each
//! transaction, its events in array order. An event contributes a stored
//! record exactly when its fully-qualified type tag equals the configured
//! signature — equality is exact, never a prefix or substring match — and its
//! payload decodes against the fixed binary layout. A payload that fails to
//! decode is skipped (the surrounding program reports it); it never aborts
//! the checkpoint. The output order, transaction order then event order, is
//! what makes `event_index` stable across replays of the same checkpoint.

use vstd::prelude::*;

use crate::checkpoint::Checkpoint;
use crate::checkpoint::Event;
use crate::checkpoint::Transaction;
use crate::codec::decode;
use crate::codec::decode_spec;
use crate::config::LogConfig;
use crate::events::DIDClaimedView;
use crate::hex::hex_literal_of;
use crate::hex::to_hex_literal;
use crate::models::StoredDIDClaimedEvent;
use crate::models::StoredDIDClaimedEventView;
use crate::store::commit_spec;
use crate::store::inserted_count;
use crate::store::lemma_commit_idempotent;
use crate::store::EventStore;

verus! {

/// Package that the deployed registry contract lives under.
pub const SUIVERIFY_PACKAGE_ID: &'static str =
    "0xd9f5cd6845d838653bac950697ab33009db0a7f886b201dbda9ba132c3dd495";

/// Module and event name appended to the package to form the full signature.
pub const DID_CLAIMED_EVENT_SUFFIX: &'static str = "::did_registry::DIDClaimed";

/// The fully-qualified type signature the handler is configured with by
/// default: package, module and event name.
pub open spec fn default_event_type() -> Seq<char> {
    SUIVERIFY_PACKAGE_ID@ + DID_CLAIMED_EVENT_SUFFIX@
}

/// The stored record built for a matching event that decoded to `d`, with its
/// provenance: checkpoint sequence number, transaction digest, position of
/// the event in the transaction's event list, and checkpoint timestamp.
pub open spec fn stored_record_of(
    d: DIDClaimedView,
    seq_no: u64,
    ts: u64,
    digest: Seq<char>,
    idx: u64,
) -> StoredDIDClaimedEventView {
    StoredDIDClaimedEventView {
        registry_id: hex_literal_of(d.registry_id),
        user_address: hex_literal_of(d.user_address),
        did_type: d.did_type,
        user_did_id: hex_literal_of(d.user_did_id),
        nft_id: hex_literal_of(d.nft_id),
        checkpoint_sequence_number: seq_no,
        transaction_digest: digest,
        timestamp_ms: ts,
        event_index: idx,
    }
}

/// The zero or one records an event at position `idx` contributes: one
/// exactly when its type tag equals `sig` and its payload decodes.
pub open spec fn record_of_event(
    sig: Seq<char>,
    seq_no: u64,
    ts: u64,
    digest: Seq<char>,
    idx: u64,
    ev: Event,
) -> Option<StoredDIDClaimedEventView> {
    if ev.type_tag@ == sig {
        match decode_spec(ev.contents@) {
            Some(d) => Some(stored_record_of(d, seq_no, ts, digest, idx)),
            None => None,
        }
    } else {
        None
    }
}

/// The records of one transaction's event list, in array order, each indexed
/// by its position.
pub open spec fn records_of_events(
    sig: Seq<char>,
    seq_no: u64,
    ts: u64,
    digest: Seq<char>,
    evs: Seq<Event>,
) -> Seq<StoredDIDClaimedEventView>
    decreases evs.len(),
{
    if evs.len() == 0 {
        Seq::empty()
    } else {
        records_of_events(sig, seq_no, ts, digest, evs.drop_last()) + (match record_of_event(
            sig,
            seq_no,
            ts,
            digest,
            (evs.len() - 1) as u64,
            evs.last(),
        ) {
            Some(r) => seq![r],
            None => Seq::<StoredDIDClaimedEventView>::empty(),
        })
    }
}

/// The records of one transaction; a transaction without an event list
/// contributes nothing.
pub open spec fn records_of_transaction(
    sig: Seq<char>,
    seq_no: u64,
    ts: u64,
    tx: Transaction,
) -> Seq<StoredDIDClaimedEventView> {
    match tx.events {
        Some(evs) => records_of_events(sig, seq_no, ts, tx.digest@, evs@),
        None => Seq::<StoredDIDClaimedEventView>::empty(),
    }
}

/// The records of a list of transactions, in transaction order.
pub open spec fn records_of_transactions(
    sig: Seq<char>,
    seq_no: u64,
    ts: u64,
    txs: Seq<Transaction>,
) -> Seq<StoredDIDClaimedEventView>
    decreases txs.len(),
{
    if txs.len() == 0 {
        Seq::empty()
    } else {
        records_of_transactions(sig, seq_no, ts, txs.drop_last()) + records_of_transaction(
            sig,
            seq_no,
            ts,
            txs.last(),
        )
    }
}

/// Everything extraction yields from one checkpoint: a pure function of the
/// checkpoint and the configured signature.
pub open spec fn extract_spec(sig: Seq<char>, cp: Checkpoint) -> Seq<StoredDIDClaimedEventView> {
    records_of_transactions(sig, cp.sequence_number, cp.timestamp_ms, cp.transactions@)
}

/// One event extends a prefix's records by its own contribution.
proof fn lemma_records_of_events_snoc(
    sig: Seq<char>,
    seq_no: u64,
    ts: u64,
    digest: Seq<char>,
    evs: Seq<Event>,
    e: int,
)
    requires
        0 <= e < evs.len(),
    ensures
        records_of_events(sig, seq_no, ts, digest, evs.take(e + 1)) == records_of_events(
            sig,
            seq_no,
            ts,
            digest,
            evs.take(e),
        ) + (match record_of_event(sig, seq_no, ts, digest, e as u64, evs[e]) {
            Some(r) => seq![r],
            None => Seq::<StoredDIDClaimedEventView>::empty(),
        }),
{
    let pre = evs.take(e + 1);
    assert(pre.len() == e + 1);
    assert(pre.drop_last() =~= evs.take(e));
    assert(pre.last() == evs[e]);
    assert((pre.len() - 1) as u64 == e as u64);
}

/// Sequential pipeline handler for DID-claim events: extracts matching events
/// from checkpoints and commits the resulting batches idempotently.
pub struct DIDClaimedEventHandler {
    pub log_config: LogConfig,
    pub expected_type: String,
}

impl DIDClaimedEventHandler {
    /// A handler configured with the deployed contract's event signature.
    pub fn new(log_config: LogConfig) -> (h: Self)
        ensures
            h.expected_type@ == default_event_type(),
            h.log_config == log_config,
    {
        let mut expected_type = String::from_str(SUIVERIFY_PACKAGE_ID);
        expected_type.append(DID_CLAIMED_EVENT_SUFFIX);
        DIDClaimedEventHandler { log_config, expected_type }
    }

    /// A handler configured with an explicit event signature, so deployments
    /// and tests can swap the package without rebuilding.
    pub fn new_with_event_type(log_config: LogConfig, expected_type: String) -> (h: Self)
        ensures
            h.expected_type == expected_type,
            h.log_config == log_config,
    {
        DIDClaimedEventHandler { log_config, expected_type }
    }

    /// Extracts every matching event of the checkpoint, in transaction order
    /// and then event order, with provenance taken from the enclosing
    /// checkpoint, transaction, and event position. Total: decode failures
    /// skip the one event and never abort the checkpoint.
    pub fn process(&self, checkpoint: &Checkpoint) -> (r: Vec<StoredDIDClaimedEvent>)
        ensures
            r.deep_view() == extract_spec(self.expected_type@, *checkpoint),
    {
        let seq_no = checkpoint.sequence_number;
        let ts = checkpoint.timestamp_ms;
        let mut records: Vec<StoredDIDClaimedEvent> = Vec::new();
        proof {
            assert(records.deep_view() =~= records_of_transactions(
                self.expected_type@,
                seq_no,
                ts,
                checkpoint.transactions@.take(0),
            ));
        }
        let mut t: usize = 0;
        while t < checkpoint.transactions.len()
            invariant
                t <= checkpoint.transactions@.len(),
                seq_no == checkpoint.sequence_number,
                ts == checkpoint.timestamp_ms,
                records.deep_view() == records_of_transactions(
                    self.expected_type@,
                    seq_no,
                    ts,
                    checkpoint.transactions@.take(t as int),
                ),
            decreases checkpoint.transactions@.len() - t,
        {
            let tx = &checkpoint.transactions[t];
            match &tx.events {
                Some(evs) => {
                    let ghost base = records.deep_view();
                    let mut e: usize = 0;
                    proof {
                        assert(evs@.take(0) =~= Seq::<Event>::empty());
                    }
                    while e < evs.len()
                        invariant
                            e <= evs@.len(),
                            seq_no == checkpoint.sequence_number,
                            ts == checkpoint.timestamp_ms,
                            t < checkpoint.transactions@.len(),
                            tx == &checkpoint.transactions@[t as int],
                            tx.events == Some(*evs),
                            base == records_of_transactions(
                                self.expected_type@,
                                seq_no,
                                ts,
                                checkpoint.transactions@.take(t as int),
                            ),
                            records.deep_view() == base + records_of_events(
                                self.expected_type@,
                                seq_no,
                                ts,
                                tx.digest@,
                                evs@.take(e as int),
                            ),
                        decreases evs@.len() - e,
                    {
                        let ev = &evs[e];
                        let ghost prev = records.deep_view();
                        if ev.type_tag == self.expected_type {
                            match decode(&ev.contents) {
                                Ok(d) => {
                                    let rec = StoredDIDClaimedEvent {
                                        registry_id: to_hex_literal(&d.registry_id),
                                        user_address: to_hex_literal(&d.user_address),
                                        did_type: d.did_type,
                                        user_did_id: to_hex_literal(&d.user_did_id),
                                        nft_id: to_hex_literal(&d.nft_id),
                                        checkpoint_sequence_number: seq_no,
                                        transaction_digest: tx.digest.clone(),
                                        timestamp_ms: ts,
                                        event_index: e as u64,
                                    };
                                    proof {
                                        assert(rec@ =~= record_of_event(
                                            self.expected_type@,
                                            seq_no,
                                            ts,
                                            tx.digest@,
                                            e as u64,
                                            evs@[e as int],
                                        ).unwrap());
                                    }
                                    records.push(rec);
                                    proof {
                                        assert(records.deep_view() =~= prev.push(rec@));
                                    }
                                },
                                Err(_) => {
                                    // Malformed or drifted payload: skip this
                                    // one event and continue.
                                },
                            }
                        }
                        proof {
                            lemma_records_of_events_snoc(
                                self.expected_type@,
                                seq_no,
                                ts,
                                tx.digest@,
                                evs@,
                                e as int,
                            );
                            assert(records.deep_view() =~= base + records_of_events(
                                self.expected_type@,
                                seq_no,
                                ts,
                                tx.digest@,
                                evs@.take(e + 1),
                            ));
                        }
                        e = e + 1;
                    }
                    proof {
                        assert(evs@.take(evs@.len() as int) =~= evs@);
                    }
                },
                None => {},
            }
            proof {
                let txs = checkpoint.transactions@;
                assert(txs.take(t + 1).drop_last() =~= txs.take(t as int));
                assert(txs.take(t + 1).last() == txs[t as int]);
                assert(records.deep_view() =~= records_of_transactions(
                    self.expected_type@,
                    seq_no,
                    ts,
                    txs.take(t + 1),
                ));
            }
            t = t + 1;
        }
        proof {
            assert(checkpoint.transactions@.take(checkpoint.transactions@.len() as int)
                =~= checkpoint.transactions@);
        }
        records
    }

    /// Appends freshly extracted values to the pending batch, keeping order.
    pub fn batch(
        &self,
        batch: &mut Vec<StoredDIDClaimedEvent>,
        values: Vec<StoredDIDClaimedEvent>,
    )
        ensures
            final(batch)@ == old(batch)@ + values@,
    {
        let mut i: usize = 0;
        proof {
            assert(batch@ =~= old(batch)@ + values@.take(0));
        }
        while i < values.len()
            invariant
                i <= values@.len(),
                batch@ == old(batch)@ + values@.take(i as int),
            decreases values@.len() - i,
        {
            batch.push(values[i].clone());
            proof {
                assert(old(batch)@ + values@.take(i + 1) =~= (old(batch)@ + values@.take(
                    i as int,
                )).push(values@[i as int]));
            }
            i = i + 1;
        }
        proof {
            assert(values@.take(values@.len() as int) =~= values@);
        }
    }

    /// Lands a batch in the store, skipping rows whose
    /// `(transaction_digest, event_index)` key is already present, and
    /// returns the count of genuinely new rows. An empty batch is a no-op
    /// that returns 0. The notification side-channel plays no part here: the
    /// count and the stored rows depend on the store and the batch alone.
    pub fn commit(&self, batch: &Vec<StoredDIDClaimedEvent>, store: &mut EventStore) -> (n: usize)
        requires
            old(store).inv(),
        ensures
            final(store).inv(),
            final(store)@ == commit_spec(old(store)@, batch.deep_view()),
            n == inserted_count(old(store)@, batch.deep_view()),
            batch@.len() == 0 ==> n == 0 && final(store)@ == old(store)@,
    {
        if batch.len() == 0 {
            proof {
                assert(batch.deep_view().len() == 0);
            }
            return 0;
        }
        store.commit(batch)
    }
}

/// No transactions, or no events in any transaction, yield no records.
pub proof fn lemma_extract_empty(sig: Seq<char>, cp: Checkpoint)
    requires
        forall|t: int|
            0 <= t < cp.transactions@.len() ==> ((#[trigger] cp.transactions@[t].events) is Some
                ==> cp.transactions@[t].events.unwrap()@.len() == 0),
    ensures
        extract_spec(sig, cp) == Seq::<StoredDIDClaimedEventView>::empty(),
{
    lemma_records_of_transactions_empty(
        sig,
        cp.sequence_number,
        cp.timestamp_ms,
        cp.transactions@,
    );
}

proof fn lemma_records_of_transactions_empty(
    sig: Seq<char>,
    seq_no: u64,
    ts: u64,
    txs: Seq<Transaction>,
)
    requires
        forall|t: int|
            0 <= t < txs.len() ==> ((#[trigger] txs[t].events) is Some ==> txs[t].events.unwrap()@.len()
                == 0),
    ensures
        records_of_transactions(sig, seq_no, ts, txs) == Seq::<StoredDIDClaimedEventView>::empty(),
    decreases txs.len(),
{
    if txs.len() == 0 {
    } else {
        assert(forall|t: int|
            0 <= t < txs.drop_last().len() ==> #[trigger] txs.drop_last()[t] == txs[t]);
        lemma_records_of_transactions_empty(sig, seq_no, ts, txs.drop_last());
        assert(records_of_transaction(sig, seq_no, ts, txs.last())
            =~= Seq::<StoredDIDClaimedEventView>::empty());
        assert(records_of_transactions(sig, seq_no, ts, txs)
            =~= Seq::<StoredDIDClaimedEventView>::empty());
    }
}

/// An event whose type tag is not exactly the configured signature — a
/// prefix, an extension, or anything else unequal — contributes no record.
pub proof fn lemma_extract_exact_match_only(
    sig: Seq<char>,
    seq_no: u64,
    ts: u64,
    digest: Seq<char>,
    idx: u64,
    ev: Event,
)
    requires
        ev.type_tag@ != sig,
    ensures
        record_of_event(sig, seq_no, ts, digest, idx, ev) is None,
{
}

/// A matching event's record carries its position as `event_index`.
pub proof fn lemma_event_index_is_position(
    sig: Seq<char>,
    seq_no: u64,
    ts: u64,
    digest: Seq<char>,
    idx: u64,
    ev: Event,
)
    requires
        record_of_event(sig, seq_no, ts, digest, idx, ev) is Some,
    ensures
        record_of_event(sig, seq_no, ts, digest, idx, ev).unwrap().event_index == idx,
        record_of_event(sig, seq_no, ts, digest, idx, ev).unwrap().transaction_digest == digest,
        record_of_event(sig, seq_no, ts, digest, idx, ev).unwrap().checkpoint_sequence_number
            == seq_no,
{
}

/// A checkpoint none of whose events match the signature yields no records.
pub proof fn lemma_extract_no_matches(sig: Seq<char>, cp: Checkpoint)
    requires
        forall|t: int, e: int|
            0 <= t < cp.transactions@.len() && (#[trigger] cp.transactions@[t].events) is Some && 0
                <= e < cp.transactions@[t].events.unwrap()@.len()
                ==> (#[trigger] cp.transactions@[t].events.unwrap()@[e].type_tag@) != sig,
    ensures
        extract_spec(sig, cp) == Seq::<StoredDIDClaimedEventView>::empty(),
{
    lemma_records_of_transactions_no_matches(
        sig,
        cp.sequence_number,
        cp.timestamp_ms,
        cp.transactions@,
    );
}

proof fn lemma_records_of_events_no_matches(
    sig: Seq<char>,
    seq_no: u64,
    ts: u64,
    digest: Seq<char>,
    evs: Seq<Event>,
)
    requires
        forall|e: int| 0 <= e < evs.len() ==> (#[trigger] evs[e].type_tag@) != sig,
    ensures
        records_of_events(sig, seq_no, ts, digest, evs) == Seq::<
            StoredDIDClaimedEventView,
        >::empty(),
    decreases evs.len(),
{
    if evs.len() == 0 {
    } else {
        assert(forall|e: int|
            0 <= e < evs.drop_last().len() ==> #[trigger] evs.drop_last()[e] == evs[e]);
        lemma_records_of_events_no_matches(sig, seq_no, ts, digest, evs.drop_last());
        assert(records_of_events(sig, seq_no, ts, digest, evs)
            =~= Seq::<StoredDIDClaimedEventView>::empty());
    }
}

proof fn lemma_records_of_transactions_no_matches(
    sig: Seq<char>,
    seq_no: u64,
    ts: u64,
    txs: Seq<Transaction>,
)
    requires
        forall|t: int, e: int|
            0 <= t < txs.len() && (#[trigger] txs[t].events) is Some && 0 <= e
                < txs[t].events.unwrap()@.len() ==> (#[trigger] txs[t].events.unwrap()@[e].type_tag@)
                != sig,
    ensures
        records_of_transactions(sig, seq_no, ts, txs) == Seq::<StoredDIDClaimedEventView>::empty(),
    decreases txs.len(),
{
    if txs.len() == 0 {
    } else {
        assert(forall|t: int|
            0 <= t < txs.drop_last().len() ==> #[trigger] txs.drop_last()[t] == txs[t]);
        lemma_records_of_transactions_no_matches(sig, seq_no, ts, txs.drop_last());
        let last = txs.last();
        if last.events is Some {
            assert(forall|e: int|
                0 <= e < last.events.unwrap()@.len() ==> (#[trigger] last.events.unwrap()@[e].type_tag@)
                    != sig) by {
                assert(txs[txs.len() - 1] == last);
            }
            lemma_records_of_events_no_matches(
                sig,
                seq_no,
                ts,
                last.digest@,
                last.events.unwrap()@,
            );
        }
        assert(records_of_transactions(sig, seq_no, ts, txs)
            =~= Seq::<StoredDIDClaimedEventView>::empty());
    }
}

/// Redelivering a checkpoint is harmless: extraction is a pure function of
/// the checkpoint and the signature, so a replayed checkpoint yields the very
/// same batch, and committing that batch again inserts nothing and leaves
/// storage exactly as the first commit left it.
pub proof fn lemma_checkpoint_replay(
    sig: Seq<char>,
    cp: Checkpoint,
    rows: Seq<StoredDIDClaimedEventView>,
)
    ensures
        commit_spec(commit_spec(rows, extract_spec(sig, cp)), extract_spec(sig, cp))
            == commit_spec(rows, extract_spec(sig, cp)),
        inserted_count(commit_spec(rows, extract_spec(sig, cp)), extract_spec(sig, cp)) == 0,
{
    lemma_commit_idempotent(rows, extract_spec(sig, cp));
}

/// Extraction is compositional in the transaction list: the records of one
/// list of transactions followed by another are the records of the first
/// followed by the records of the second. Output order therefore preserves
/// transaction order, and within it event order.
pub proof fn lemma_extract_ordered(
    sig: Seq<char>,
    seq_no: u64,
    ts: u64,
    txs1: Seq<Transaction>,
    txs2: Seq<Transaction>,
)
    ensures
        records_of_transactions(sig, seq_no, ts, txs1 + txs2) == records_of_transactions(
            sig,
            seq_no,
            ts,
            txs1,
        ) + records_of_transactions(sig, seq_no, ts, txs2),
    decreases txs2.len(),
{
    if txs2.len() == 0 {
        assert(txs1 + txs2 =~= txs1);
        assert(records_of_transactions(sig, seq_no, ts, txs1) + records_of_transactions(
            sig,
            seq_no,
            ts,
            txs2,
        ) =~= records_of_transactions(sig, seq_no, ts, txs1));
    } else {
        assert((txs1 + txs2).drop_last() =~= txs1 + txs2.drop_last());
        assert((txs1 + txs2).last() == txs2.last());
        lemma_extract_ordered(sig, seq_no, ts, txs1, txs2.drop_last());
        assert(records_of_transactions(sig, seq_no, ts, txs1 + txs2) =~= records_of_transactions(
            sig,
            seq_no,
            ts,
            txs1,
        ) + records_of_transactions(sig, seq_no, ts, txs2));
    }
}

} // verus!
