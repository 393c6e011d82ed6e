//! A transaction log that lives in memory: the reference backend.

use std::collections::HashMap;
use vstd::prelude::*;
use vstd::string::StringExecFns;
use crate::errors::TolstoyError;
use crate::facts::{causal_chain, parts_view, txs_view, Tx, TxPart};
use crate::ids::Uuid;
use crate::log::{
    lemma_after_is_causal, lemma_position_unique, lemma_put_transaction_round_trip,
    GlobalTransactionLog, LogState, TxHeader, TxRecord,
};

verus! {

broadcast use vstd::std_specs::hash::group_hash_axioms;

/// The most transactions that a `MemoryLog` holds. Each gets the next
/// sequence number, and the bound keeps those within every machine's range.
pub const MAX_TRANSACTIONS: usize = 0x7fff_ffff;

/// The record that a header stands for in the model.
pub open spec fn record_of(header: TxHeader) -> TxRecord {
    TxRecord { id: header.id, parent: header.parent, chunks: header.chunks@ }
}

/// Whether two lists of identifiers are equal.
pub fn same_uuids(a: &Vec<Uuid>, b: &Vec<Uuid>) -> (r: bool)
    ensures
        r == (a@ == b@),
{
    if a.len() != b.len() {
        return false;
    }
    let mut i: usize = 0;
    while i < a.len()
        invariant
            i <= a.len(),
            a.len() == b.len(),
            forall|k: int| 0 <= k < i ==> a[k] == b[k],
        decreases a.len() - i,
    {
        if a[i] != b[i] {
            return false;
        }
        i += 1;
    }
    assert(a@ =~= b@);
    true
}

/// A copy of a list of identifiers.
pub fn clone_uuids(ids: &Vec<Uuid>) -> (r: Vec<Uuid>)
    ensures
        r@ == ids@,
{
    let mut out: Vec<Uuid> = Vec::new();
    let mut i: usize = 0;
    while i < ids.len()
        invariant
            i <= ids.len(),
            out.len() == i,
            forall|k: int| 0 <= k < i ==> out[k] == ids[k],
        decreases ids.len() - i,
    {
        out.push(ids[i]);
        i += 1;
    }
    assert(out@ =~= ids@);
    out
}

/// A log held in memory. It keeps the history as one chain, refuses a header
/// that does not continue the chain, and never replaces the content of a
/// chunk.
pub struct MemoryLog {
    head: Uuid,
    txs: Vec<TxHeader>,
    chunks: HashMap<u128, TxPart>,
    heads_written: Vec<Uuid>,
    chunks_written: Vec<Uuid>,
}

impl MemoryLog {
    /// What the log holds.
    pub closed spec fn model(&self) -> LogState {
        LogState {
            head: self.head,
            txs: Seq::new(self.txs@.len(), |i: int| record_of(self.txs@[i])),
            chunks: Map::new(
                |k: Uuid| self.chunks@.contains_key(k.value),
                |k: Uuid| self.chunks@[k.value]@,
            ),
        }
    }

    /// The history is one chain, every chunk that it names is stored, and the
    /// sequence numbers count the transactions from one.
    pub closed spec fn well_formed(&self) -> bool {
        &&& self.model().wf()
        &&& self.txs@.len() <= MAX_TRANSACTIONS
        &&& forall|i: int| 0 <= i < self.txs@.len() ==> (#[trigger] self.txs@[i]).seq == i + 1
        &&& forall|i: int|
            0 <= i < self.txs@.len() ==> self.model().has_chunks((#[trigger] self.txs@[i]).chunks@)
    }

    /// What good order means for a log in memory: its history is one
    /// chain, every chunk that a header names is stored, and it holds no
    /// more transactions than it has room for.
    pub proof fn lemma_well_formed(&self)
        requires
            self.well_formed(),
        ensures
            self.model().wf(),
            self.model().txs.len() <= MAX_TRANSACTIONS,
            forall|i: int|
                0 <= i < self.model().txs.len() ==> self.model().has_chunks(
                    (#[trigger] self.model().txs[i]).chunks,
                ),
    {
        assert forall|i: int| 0 <= i < self.model().txs.len() implies self.model().has_chunks(
            (#[trigger] self.model().txs[i]).chunks,
        ) by {
            assert(self.model().has_chunks(self.txs@[i].chunks@));
        }
    }

    /// An empty log, with the nil identifier as its head.
    pub fn new() -> (log: MemoryLog)
        ensures
            log.well_formed(),
            log.model() == LogState::empty(),
            log.head_writes() == Seq::<Uuid>::empty(),
            log.chunk_writes() == Seq::<Uuid>::empty(),
    {
        let log = MemoryLog {
            head: Uuid::nil(),
            txs: Vec::new(),
            chunks: HashMap::new(),
            heads_written: Vec::new(),
            chunks_written: Vec::new(),
        };
        assert(log.model().txs =~= Seq::empty());
        assert(log.model().chunks =~= Map::empty());
        log
    }

    /// The index of the transaction with this identifier.
    fn index_of(&self, id: &Uuid) -> (r: Option<usize>)
        requires
            self.well_formed(),
        ensures
            match r {
                Some(i) => i < self.txs@.len() && self.txs@[i as int].id == *id
                    && self.model().has_transaction(*id) && self.model().position(*id) == i,
                None => !self.model().has_transaction(*id),
            },
    {
        let mut i: usize = 0;
        while i < self.txs.len()
            invariant
                self.well_formed(),
                i <= self.txs@.len(),
                forall|k: int| 0 <= k < i ==> self.txs@[k].id != *id,
            decreases self.txs@.len() - i,
        {
            if self.txs[i].id == *id {
                proof {
                    assert(self.model().txs[i as int].id == *id);
                    lemma_position_unique(self.model(), i as int);
                }
                return Some(i);
            }
            i += 1;
        }
        proof {
            assert forall|k: int| 0 <= k < self.model().txs.len() implies (
            #[trigger] self.model().txs[k]).id != *id by {
                assert(self.txs@[k].id != *id);
            }
        }
        None
    }

    /// The facts that these chunks hold, in order.
    fn read_chunks(&self, chunks: &Vec<Uuid>) -> (r: Result<Vec<TxPart>, TolstoyError>)
        ensures
            self.model().has_chunks(chunks@) <==> r is Ok,
            r matches Ok(parts) ==> parts_view(parts@) == Seq::new(
                chunks@.len(),
                |k: int| self.model().chunks[chunks@[k]],
            ),
            r is Err ==> r matches Err(TolstoyError::BadRemoteState(_)),
    {
        let mut parts: Vec<TxPart> = Vec::new();
        let mut k: usize = 0;
        while k < chunks.len()
            invariant
                k <= chunks.len(),
                parts.len() == k,
                forall|j: int| 0 <= j < k ==> self.model().chunks.contains_key(chunks@[j]),
                forall|j: int| 0 <= j < k ==> parts@[j]@ == self.model().chunks[chunks@[j]],
            decreases chunks.len() - k,
        {
            match self.chunks.get(&chunks[k].value) {
                Some(part) => {
                    parts.push(part.clone());
                },
                None => {
                    assert(!self.model().chunks.contains_key(chunks@[k as int]));
                    return Err(
                        TolstoyError::BadRemoteState(String::from_str("referenced chunk missing")),
                    );
                },
            }
            k += 1;
        }
        assert(parts_view(parts@) =~= Seq::new(
            chunks@.len(),
            |k: int| self.model().chunks[chunks@[k]],
        ));
        Ok(parts)
    }

    /// Every identifier that the head was set to, oldest first.
    pub fn heads_written(&self) -> (written: &Vec<Uuid>)
        ensures
            written@ == self.head_writes(),
    {
        &self.heads_written
    }

    /// The chunk identifier of every chunk write that succeeded, oldest
    /// first.
    pub fn chunks_written(&self) -> (written: &Vec<Uuid>)
        ensures
            written@ == self.chunk_writes(),
    {
        &self.chunks_written
    }

    /// The identifiers of the transactions that follow `tx`, in causal
    /// order; `BadRemoteState` where the log does not know `tx`.
    pub fn transaction_ids_after(&self, tx: &Uuid) -> (r: Result<Vec<Uuid>, TolstoyError>)
        requires
            self.well_formed(),
        ensures
            self.model().knows(*tx) <==> r is Ok,
            r matches Ok(ids) ==> ids@ == Seq::new(
                self.model().after(*tx).len(),
                |i: int| self.model().after(*tx)[i].id,
            ),
            r is Err ==> r matches Err(TolstoyError::BadRemoteState(_)),
    {
        let start: usize = if tx.is_nil() {
            0
        } else {
            match self.index_of(tx) {
                Some(i) => i + 1,
                None => {
                    return Err(
                        TolstoyError::BadRemoteState(String::from_str("unknown transaction")),
                    );
                },
            }
        };
        assert(self.model().after(*tx) =~= self.model().txs.skip(start as int));
        let mut ids: Vec<Uuid> = Vec::new();
        let mut i: usize = start;
        while i < self.txs.len()
            invariant
                start <= i <= self.txs@.len(),
                ids.len() == i - start,
                forall|k: int| 0 <= k < ids.len() ==> ids@[k] == self.txs@[start + k].id,
            decreases self.txs@.len() - i,
        {
            ids.push(self.txs[i].id);
            i += 1;
        }
        assert(ids@ =~= Seq::new(
            self.model().after(*tx).len(),
            |i: int| self.model().after(*tx)[i].id,
        ));
        Ok(ids)
    }

    /// The header recorded under `id`, if there is one.
    pub fn transaction_header(&self, id: &Uuid) -> (r: Option<TxHeader>)
        requires
            self.well_formed(),
        ensures
            self.model().has_transaction(*id) <==> r is Some,
            r matches Some(header) ==> {
                &&& record_of(header) == self.model().txs[self.model().position(*id)]
                &&& header.seq == self.model().position(*id) + 1
            },
    {
        match self.index_of(id) {
            Some(i) => {
                let found = &self.txs[i];
                Some(
                    TxHeader {
                        id: found.id,
                        parent: found.parent,
                        chunks: clone_uuids(&found.chunks),
                        seq: found.seq,
                    },
                )
            },
            None => None,
        }
    }

    /// The content stored under `id`, if there is any.
    pub fn chunk(&self, id: &Uuid) -> (r: Option<TxPart>)
        ensures
            self.model().chunks.contains_key(*id) <==> r is Some,
            r matches Some(part) ==> part@ == self.model().chunks[*id],
    {
        match self.chunks.get(&id.value) {
            Some(part) => Some(part.clone()),
            None => None,
        }
    }
}

impl GlobalTransactionLog for MemoryLog {
    open spec fn view(&self) -> LogState {
        self.model()
    }

    open spec fn inv(&self) -> bool {
        self.well_formed()
    }

    /// A log in memory fails only where the state of the log forbids the
    /// operation.
    open spec fn dependable(&self) -> bool {
        true
    }

    open spec fn capacity(&self) -> nat {
        MAX_TRANSACTIONS as nat
    }

    closed spec fn head_writes(&self) -> Seq<Uuid> {
        self.heads_written@
    }

    closed spec fn chunk_writes(&self) -> Seq<Uuid> {
        self.chunks_written@
    }

    fn head(&self) -> (r: Result<Uuid, TolstoyError>)
        ensures
            r is Ok,
    {
        Ok(self.head)
    }

    fn set_head(&mut self, uuid: &Uuid) -> (r: Result<(), TolstoyError>)
        ensures
            r is Ok,
    {
        self.head = *uuid;
        self.heads_written.push(*uuid);
        assert(self.model().txs =~= old(self).model().txs);
        assert(self.model().chunks =~= old(self).model().chunks);
        Ok(())
    }

    fn transactions_after(&self, tx: &Uuid) -> (r: Result<Vec<Tx>, TolstoyError>)
        ensures
            self@.knows(*tx) <==> r is Ok,
            self@.knows(*tx) ==> self@.complete_after(*tx),
    {
        let start: usize = if tx.is_nil() {
            0
        } else {
            match self.index_of(tx) {
                Some(i) => i + 1,
                None => {
                    return Err(
                        TolstoyError::BadRemoteState(String::from_str("unknown transaction")),
                    );
                },
            }
        };
        assert(self.model().after(*tx) =~= self.model().txs.skip(start as int));
        assert forall|i: int| 0 <= i < self.model().after(*tx).len() implies self.model().has_chunks(
            (#[trigger] self.model().after(*tx)[i]).chunks,
        ) by {
            assert(self.model().after(*tx)[i].chunks == self.txs@[start + i].chunks@);
        }
        let mut out: Vec<Tx> = Vec::new();
        let mut i: usize = start;
        while i < self.txs.len()
            invariant
                self.well_formed(),
                start <= i <= self.txs@.len(),
                out.len() == i - start,
                forall|k: int|
                    0 <= k < out.len() ==> out@[k]@ == self.model().hydrate(
                        self.model().txs[start + k],
                    ),
            decreases self.txs@.len() - i,
        {
            let header = &self.txs[i];
            match self.read_chunks(&header.chunks) {
                Ok(parts) => {
                    out.push(Tx { tx: header.id, parent: header.parent, parts });
                    assert(out@[i - start]@ == self.model().hydrate(self.model().txs[i as int]));
                },
                Err(e) => {
                    // Every chunk that the history names is stored.
                    assert(false);
                    return Err(e);
                },
            }
            i += 1;
        }
        proof {
            assert(txs_view(out@) =~= self.model().hydrated_after(*tx));
            lemma_after_is_causal(self.model(), *tx);
        }
        Ok(out)
    }

    fn put_transaction(
        &mut self,
        transaction_uuid: &Uuid,
        parent_uuid: &Uuid,
        chunks: &Vec<Uuid>,
    ) -> (r: Result<(), TolstoyError>)
        ensures
            r is Err ==> r matches Err(TolstoyError::BadRemoteState(_)),
            r is Ok ==> final(self)@.has_transaction(*transaction_uuid) && final(self)@.txs[final(self)@.position(*transaction_uuid)] == (TxRecord {
                id: *transaction_uuid,
                parent: *parent_uuid,
                chunks: chunks@,
            }),
    {
        let ghost record = TxRecord {
            id: *transaction_uuid,
            parent: *parent_uuid,
            chunks: chunks@,
        };
        let ghost before = self.model();
        match self.index_of(transaction_uuid) {
            Some(i) => {
                let known = &self.txs[i];
                if known.parent == *parent_uuid && same_uuids(&known.chunks, chunks) {
                    assert(before.txs[i as int] == record);
                    return Ok(());
                }
                proof {
                    if before.has_record(record) {
                        let j = choose|j: int|
                            0 <= j < before.txs.len() && #[trigger] before.txs[j] == record;
                        lemma_position_unique(before, j);
                        assert(before.txs[j].chunks =~= chunks@);
                    }
                }
                return Err(
                    TolstoyError::BadRemoteState(
                        String::from_str("transaction is recorded with another header"),
                    ),
                );
            },
            None => {},
        }
        proof {
            if before.has_record(record) {
                let j = choose|j: int|
                    0 <= j < before.txs.len() && #[trigger] before.txs[j] == record;
                assert(before.txs[j].id == *transaction_uuid);
            }
        }
        if transaction_uuid.is_nil() {
            return Err(
                TolstoyError::BadRemoteState(
                    String::from_str("the nil identifier names no transaction"),
                ),
            );
        }
        let n = self.txs.len();
        let tip = if n == 0 {
            Uuid::nil()
        } else {
            self.txs[n - 1].id
        };
        assert(tip == before.tip());
        if tip != *parent_uuid {
            return Err(
                TolstoyError::BadRemoteState(
                    String::from_str("parent is not the last transaction of the log"),
                ),
            );
        }
        if n >= MAX_TRANSACTIONS {
            return Err(TolstoyError::BadRemoteState(String::from_str("the log is full")));
        }
        let seq: i64 = (n + 1) as i64;
        self.txs.push(
            TxHeader {
                id: *transaction_uuid,
                parent: *parent_uuid,
                chunks: clone_uuids(chunks),
                seq,
            },
        );
        proof {
            assert(self.model().txs =~= before.txs.push(record));
            assert(self.model().chunks =~= before.chunks);
            assert(self.model() == before.with_transaction(record));
            lemma_put_transaction_round_trip(before, record);
            assert forall|i: int| 0 <= i < self.txs@.len() implies self.model().has_chunks(
                (#[trigger] self.txs@[i]).chunks@,
            ) by {
                if i < n {
                    assert(self.txs@[i] == old(self).txs@[i]);
                    assert(before.has_chunks(old(self).txs@[i].chunks@));
                }
            }
        }
        Ok(())
    }

    fn put_chunk(&mut self, chunk_uuid: &Uuid, payload: &TxPart) -> (r: Result<(), TolstoyError>)
        ensures
            r is Err ==> r matches Err(TolstoyError::DuplicateMetadata(_)),
    {
        let ghost before = self.model();
        let stored_same = match self.chunks.get(&chunk_uuid.value) {
            Some(stored) => Some(stored.same_as(payload)),
            None => None,
        };
        match stored_same {
            Some(same) => {
                if same {
                    self.chunks_written.push(*chunk_uuid);
                    proof {
                        assert(self.model().txs =~= before.txs);
                        assert(self.model().chunks =~= before.chunks);
                        assert(before.chunks.insert(*chunk_uuid, payload@) =~= before.chunks);
                        assert forall|i: int| 0 <= i < self.txs@.len() implies self.model().has_chunks(
                            (#[trigger] self.txs@[i]).chunks@,
                        ) by {
                            assert(before.has_chunks(old(self).txs@[i].chunks@));
                        }
                    }
                    Ok(())
                } else {
                    Err(
                        TolstoyError::DuplicateMetadata(
                            String::from_str("chunk is stored with other content"),
                        ),
                    )
                }
            },
            None => {
                self.chunks.insert(chunk_uuid.value, payload.clone());
                self.chunks_written.push(*chunk_uuid);
                proof {
                    assert(self.model().txs =~= before.txs);
                    assert(self.model().chunks =~= before.chunks.insert(*chunk_uuid, payload@));
                    assert forall|i: int| 0 <= i < self.txs@.len() implies self.model().has_chunks(
                        (#[trigger] self.txs@[i]).chunks@,
                    ) by {
                        assert(before.has_chunks(old(self).txs@[i].chunks@));
                    }
                }
                Ok(())
            },
        }
    }
}

} // verus!
