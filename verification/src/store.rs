//! Dedup/commit gate over durable storage.
//!
//! Durable storage is modelled as an append-only table of rows with a
//! uniqueness key. Inserting a batch is idempotent: rows whose key is
//! already present are skipped without complaint, and the result says how many rows were
//! genuinely new. A crash-retried batch therefore lands exactly once: the
//! second attempt inserts nothing and leaves the table unchanged. The
//! surrounding program runs the same insert-on-conflict-do-nothing statement
//! against its database; storage failures there abort the whole batch and are
//! retried wholesale by the driver.

use vstd::prelude::*;

use crate::models::StoredDIDClaimedEvent;
use crate::models::StoredDIDClaimedEventView;
use crate::models::StoredTransactionDigest;
use crate::models::StoredTransactionDigestView;

verus! {

/// The natural uniqueness key of a stored event row.
pub open spec fn row_key(r: StoredDIDClaimedEventView) -> (Seq<char>, u64) {
    (r.transaction_digest, r.event_index)
}

/// Whether some row of `rows` carries the key `k`.
pub open spec fn has_key(rows: Seq<StoredDIDClaimedEventView>, k: (Seq<char>, u64)) -> bool {
    exists|i: int| 0 <= i < rows.len() && row_key(#[trigger] rows[i]) == k
}

/// No two rows share a key.
pub open spec fn unique_keys(rows: Seq<StoredDIDClaimedEventView>) -> bool {
    forall|i: int, j: int|
        0 <= i < j < rows.len() ==> row_key(#[trigger] rows[i]) != row_key(#[trigger] rows[j])
}

/// The table after inserting `batch` in order, skipping rows whose key is
/// already present — including keys introduced earlier in the same batch.
pub open spec fn commit_spec(
    rows: Seq<StoredDIDClaimedEventView>,
    batch: Seq<StoredDIDClaimedEventView>,
) -> Seq<StoredDIDClaimedEventView>
    decreases batch.len(),
{
    if batch.len() == 0 {
        rows
    } else if has_key(rows, row_key(batch[0])) {
        commit_spec(rows, batch.drop_first())
    } else {
        commit_spec(rows.push(batch[0]), batch.drop_first())
    }
}

/// How many rows of `batch` are genuinely new to `rows`.
pub open spec fn inserted_count(
    rows: Seq<StoredDIDClaimedEventView>,
    batch: Seq<StoredDIDClaimedEventView>,
) -> nat
    decreases batch.len(),
{
    if batch.len() == 0 {
        0
    } else if has_key(rows, row_key(batch[0])) {
        inserted_count(rows, batch.drop_first())
    } else {
        1 + inserted_count(rows.push(batch[0]), batch.drop_first())
    }
}

/// A key present before a commit is still present after it.
pub proof fn lemma_has_key_commit_monotone(
    rows: Seq<StoredDIDClaimedEventView>,
    batch: Seq<StoredDIDClaimedEventView>,
    k: (Seq<char>, u64),
)
    requires
        has_key(rows, k),
    ensures
        has_key(commit_spec(rows, batch), k),
    decreases batch.len(),
{
    if batch.len() == 0 {
    } else if has_key(rows, row_key(batch[0])) {
        lemma_has_key_commit_monotone(rows, batch.drop_first(), k);
    } else {
        let i = choose|i: int| 0 <= i < rows.len() && row_key(#[trigger] rows[i]) == k;
        assert(row_key(rows.push(batch[0])[i]) == k);
        lemma_has_key_commit_monotone(rows.push(batch[0]), batch.drop_first(), k);
    }
}

/// After a commit, the key of every row of the batch is present.
pub proof fn lemma_commit_adds_keys(
    rows: Seq<StoredDIDClaimedEventView>,
    batch: Seq<StoredDIDClaimedEventView>,
    j: int,
)
    requires
        0 <= j < batch.len(),
    ensures
        has_key(commit_spec(rows, batch), row_key(batch[j])),
    decreases batch.len(),
{
    let k = row_key(batch[0]);
    let rest = batch.drop_first();
    if has_key(rows, k) {
        if j == 0 {
            lemma_has_key_commit_monotone(rows, rest, k);
        } else {
            lemma_commit_adds_keys(rows, rest, j - 1);
        }
    } else {
        let grown = rows.push(batch[0]);
        if j == 0 {
            assert(row_key(grown[rows.len() as int]) == k);
            lemma_has_key_commit_monotone(grown, rest, k);
        } else {
            lemma_commit_adds_keys(grown, rest, j - 1);
        }
    }
}

/// A batch all of whose keys are already present inserts nothing and leaves
/// the table unchanged.
pub proof fn lemma_commit_noop(
    rows: Seq<StoredDIDClaimedEventView>,
    batch: Seq<StoredDIDClaimedEventView>,
)
    requires
        forall|j: int| 0 <= j < batch.len() ==> has_key(rows, row_key(#[trigger] batch[j])),
    ensures
        commit_spec(rows, batch) == rows,
        inserted_count(rows, batch) == 0,
    decreases batch.len(),
{
    if batch.len() == 0 {
    } else {
        assert(has_key(rows, row_key(batch[0])));
        assert(forall|j: int|
            0 <= j < batch.drop_first().len() ==> #[trigger] batch.drop_first()[j] == batch[j + 1]);
        lemma_commit_noop(rows, batch.drop_first());
    }
}

/// Committing an identical batch a second time inserts nothing and leaves
/// storage exactly as the first commit left it.
pub proof fn lemma_commit_idempotent(
    rows: Seq<StoredDIDClaimedEventView>,
    batch: Seq<StoredDIDClaimedEventView>,
)
    ensures
        commit_spec(commit_spec(rows, batch), batch) == commit_spec(rows, batch),
        inserted_count(commit_spec(rows, batch), batch) == 0,
{
    let committed = commit_spec(rows, batch);
    assert forall|j: int| 0 <= j < batch.len() implies has_key(
        committed,
        row_key(#[trigger] batch[j]),
    ) by {
        lemma_commit_adds_keys(rows, batch, j);
    }
    lemma_commit_noop(committed, batch);
}

/// Commits are append-only: every row already stored stays, unchanged and in
/// place — a duplicate is skipped, never overwritten, and nothing is deleted.
pub proof fn lemma_commit_append_only(
    rows: Seq<StoredDIDClaimedEventView>,
    batch: Seq<StoredDIDClaimedEventView>,
)
    ensures
        commit_spec(rows, batch).len() >= rows.len(),
        commit_spec(rows, batch).take(rows.len() as int) == rows,
    decreases batch.len(),
{
    let result = commit_spec(rows, batch);
    if batch.len() == 0 {
        assert(result.take(rows.len() as int) =~= rows);
    } else if has_key(rows, row_key(batch[0])) {
        lemma_commit_append_only(rows, batch.drop_first());
    } else {
        let grown = rows.push(batch[0]);
        lemma_commit_append_only(grown, batch.drop_first());
        assert(result.take(grown.len() as int) == grown);
        assert forall|i: int| 0 <= i < rows.len() implies result.take(rows.len() as int)[i]
            == rows[i] by {
            assert(result.take(grown.len() as int)[i] == grown[i]);
        }
        assert(result.take(rows.len() as int) =~= rows);
    }
}

/// In-memory model of the durable event table.
pub struct EventStore {
    rows: Vec<StoredDIDClaimedEvent>,
}

impl View for EventStore {
    type V = Seq<StoredDIDClaimedEventView>;

    closed spec fn view(&self) -> Seq<StoredDIDClaimedEventView> {
        self.rows.deep_view()
    }
}

impl EventStore {
    /// The uniqueness constraint the table enforces.
    pub open spec fn inv(&self) -> bool {
        unique_keys(self@)
    }

    pub fn new() -> (s: Self)
        ensures
            s@ == Seq::<StoredDIDClaimedEventView>::empty(),
            s.inv(),
    {
        let s = EventStore { rows: Vec::new() };
        proof {
            assert(s@ =~= Seq::<StoredDIDClaimedEventView>::empty());
        }
        s
    }

    /// A read-only look at the stored rows, in insertion order.
    pub fn records(&self) -> (r: &Vec<StoredDIDClaimedEvent>)
        ensures
            r.deep_view() == self@,
    {
        &self.rows
    }

    /// Whether a row with the key `(digest, event_index)` is stored.
    pub fn contains_key(&self, digest: &String, event_index: u64) -> (b: bool)
        ensures
            b == has_key(self@, (digest@, event_index)),
    {
        let mut i: usize = 0;
        while i < self.rows.len()
            invariant
                i <= self@.len(),
                self@.len() == self.rows@.len(),
                forall|j: int| 0 <= j < i ==> row_key(#[trigger] self@[j]) != (digest@, event_index),
            decreases self@.len() - i,
        {
            if self.rows[i].transaction_digest == *digest && self.rows[i].event_index
                == event_index {
                proof {
                    assert(row_key(self@[i as int]) == (digest@, event_index));
                }
                return true;
            }
            i = i + 1;
        }
        false
    }

    /// Idempotent bulk insert: lands each row of `batch` whose key is not yet
    /// present, in batch order, and returns the count of genuinely new rows.
    /// An empty batch changes nothing and returns 0.
    pub fn commit(&mut self, batch: &Vec<StoredDIDClaimedEvent>) -> (n: usize)
        requires
            old(self).inv(),
        ensures
            final(self).inv(),
            final(self)@ == commit_spec(old(self)@, batch.deep_view()),
            n == inserted_count(old(self)@, batch.deep_view()),
    {
        let ghost orig = self@;
        let ghost bviews = batch.deep_view();
        let mut n: usize = 0;
        let mut k: usize = 0;
        proof {
            assert(bviews.skip(0) =~= bviews);
        }
        while k < batch.len()
            invariant
                k <= bviews.len(),
                n <= k,
                bviews == batch.deep_view(),
                bviews.len() == batch@.len(),
                self.inv(),
                commit_spec(orig, bviews) == commit_spec(self@, bviews.skip(k as int)),
                inserted_count(orig, bviews) == n + inserted_count(self@, bviews.skip(k as int)),
            decreases bviews.len() - k,
        {
            let row = &batch[k];
            proof {
                assert(bviews.skip(k as int)[0] == row@);
                assert(bviews.skip(k as int).drop_first() =~= bviews.skip(k + 1));
            }
            if self.contains_key(&row.transaction_digest, row.event_index) {
                proof {
                    assert(has_key(self@, row_key(row@)));
                }
            } else {
                let ghost before = self@;
                self.rows.push(row.clone());
                proof {
                    assert(self@ =~= before.push(row@));
                    assert forall|i: int, j: int| 0 <= i < j < self@.len() implies row_key(
                        #[trigger] self@[i],
                    ) != row_key(#[trigger] self@[j]) by {
                        if j < before.len() {
                            assert(row_key(before[i]) != row_key(before[j]));
                        } else {
                            assert(!has_key(before, row_key(row@)));
                            assert(self@[j] == row@);
                            assert(self@[i] == before[i]);
                        }
                    }
                }
                n = n + 1;
            }
            k = k + 1;
        }
        proof {
            assert(bviews.skip(bviews.len() as int) =~= Seq::<StoredDIDClaimedEventView>::empty());
        }
        n
    }
}

/// The uniqueness key of a transaction-digest row: the digest alone.
pub open spec fn digest_key(r: StoredTransactionDigestView) -> Seq<char> {
    r.tx_digest
}

/// Whether some row of `rows` carries the digest `k`.
pub open spec fn has_digest(rows: Seq<StoredTransactionDigestView>, k: Seq<char>) -> bool {
    exists|i: int| 0 <= i < rows.len() && digest_key(#[trigger] rows[i]) == k
}

/// No two rows share a digest.
pub open spec fn unique_digests(rows: Seq<StoredTransactionDigestView>) -> bool {
    forall|i: int, j: int|
        0 <= i < j < rows.len() ==> digest_key(#[trigger] rows[i]) != digest_key(
            #[trigger] rows[j],
        )
}

/// The digest table after inserting `batch` in order, skipping rows whose
/// digest is already present.
pub open spec fn digest_commit_spec(
    rows: Seq<StoredTransactionDigestView>,
    batch: Seq<StoredTransactionDigestView>,
) -> Seq<StoredTransactionDigestView>
    decreases batch.len(),
{
    if batch.len() == 0 {
        rows
    } else if has_digest(rows, digest_key(batch[0])) {
        digest_commit_spec(rows, batch.drop_first())
    } else {
        digest_commit_spec(rows.push(batch[0]), batch.drop_first())
    }
}

/// How many rows of `batch` carry a digest new to `rows`.
pub open spec fn digest_inserted_count(
    rows: Seq<StoredTransactionDigestView>,
    batch: Seq<StoredTransactionDigestView>,
) -> nat
    decreases batch.len(),
{
    if batch.len() == 0 {
        0
    } else if has_digest(rows, digest_key(batch[0])) {
        digest_inserted_count(rows, batch.drop_first())
    } else {
        1 + digest_inserted_count(rows.push(batch[0]), batch.drop_first())
    }
}

/// In-memory model of the durable transaction-digest table.
pub struct DigestStore {
    rows: Vec<StoredTransactionDigest>,
}

impl View for DigestStore {
    type V = Seq<StoredTransactionDigestView>;

    closed spec fn view(&self) -> Seq<StoredTransactionDigestView> {
        self.rows.deep_view()
    }
}

impl DigestStore {
    /// The uniqueness constraint the table enforces.
    pub open spec fn inv(&self) -> bool {
        unique_digests(self@)
    }

    pub fn new() -> (s: Self)
        ensures
            s@ == Seq::<StoredTransactionDigestView>::empty(),
            s.inv(),
    {
        let s = DigestStore { rows: Vec::new() };
        proof {
            assert(s@ =~= Seq::<StoredTransactionDigestView>::empty());
        }
        s
    }

    /// A read-only look at the stored rows, in insertion order.
    pub fn records(&self) -> (r: &Vec<StoredTransactionDigest>)
        ensures
            r.deep_view() == self@,
    {
        &self.rows
    }

    /// Whether a row with the digest `digest` is stored.
    pub fn contains_digest(&self, digest: &String) -> (b: bool)
        ensures
            b == has_digest(self@, digest@),
    {
        let mut i: usize = 0;
        while i < self.rows.len()
            invariant
                i <= self@.len(),
                self@.len() == self.rows@.len(),
                forall|j: int| 0 <= j < i ==> digest_key(#[trigger] self@[j]) != digest@,
            decreases self@.len() - i,
        {
            if self.rows[i].tx_digest == *digest {
                proof {
                    assert(digest_key(self@[i as int]) == digest@);
                }
                return true;
            }
            i = i + 1;
        }
        false
    }

    /// Idempotent bulk insert keyed by digest; returns the count of genuinely
    /// new rows.
    pub fn commit(&mut self, batch: &Vec<StoredTransactionDigest>) -> (n: usize)
        requires
            old(self).inv(),
        ensures
            final(self).inv(),
            final(self)@ == digest_commit_spec(old(self)@, batch.deep_view()),
            n == digest_inserted_count(old(self)@, batch.deep_view()),
    {
        let ghost orig = self@;
        let ghost bviews = batch.deep_view();
        let mut n: usize = 0;
        let mut k: usize = 0;
        proof {
            assert(bviews.skip(0) =~= bviews);
        }
        while k < batch.len()
            invariant
                k <= bviews.len(),
                n <= k,
                bviews == batch.deep_view(),
                bviews.len() == batch@.len(),
                self.inv(),
                digest_commit_spec(orig, bviews) == digest_commit_spec(
                    self@,
                    bviews.skip(k as int),
                ),
                digest_inserted_count(orig, bviews) == n + digest_inserted_count(
                    self@,
                    bviews.skip(k as int),
                ),
            decreases bviews.len() - k,
        {
            let row = &batch[k];
            proof {
                assert(bviews.skip(k as int)[0] == row@);
                assert(bviews.skip(k as int).drop_first() =~= bviews.skip(k + 1));
            }
            if self.contains_digest(&row.tx_digest) {
                proof {
                    assert(has_digest(self@, digest_key(row@)));
                }
            } else {
                let ghost before = self@;
                self.rows.push(row.clone());
                proof {
                    assert(self@ =~= before.push(row@));
                    assert forall|i: int, j: int| 0 <= i < j < self@.len() implies digest_key(
                        #[trigger] self@[i],
                    ) != digest_key(#[trigger] self@[j]) by {
                        if j < before.len() {
                            assert(digest_key(before[i]) != digest_key(before[j]));
                        } else {
                            assert(!has_digest(before, digest_key(row@)));
                            assert(self@[j] == row@);
                            assert(self@[i] == before[i]);
                        }
                    }
                }
                n = n + 1;
            }
            k = k + 1;
        }
        proof {
            assert(bviews.skip(bviews.len() as int) =~= Seq::<StoredTransactionDigestView>::empty());
        }
        n
    }
}

} // verus!
