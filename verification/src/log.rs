//! The transaction log interface and the mathematical model of a log.

use vstd::prelude::*;
use crate::errors::TolstoyError;
use crate::facts::{causal_chain, txs_view, Tx, TxPart, TxPartView, TxView};
use crate::ids::Uuid;

verus! {

/// The header of a transaction as a log serves it: the transaction's
/// identifier, the transaction it follows, the chunks that hold its facts, in
/// order, and the sequence number that the log gave it on acceptance.
#[derive(Debug)]
pub struct TxHeader {
    pub id: Uuid,
    pub parent: Uuid,
    pub chunks: Vec<Uuid>,
    pub seq: i64,
}

/// What a transaction header holds, as mathematics.
pub struct TxHeaderView {
    pub id: Uuid,
    pub parent: Uuid,
    pub chunks: Seq<Uuid>,
    pub seq: i64,
}

impl View for TxHeader {
    type V = TxHeaderView;

    open spec fn view(&self) -> TxHeaderView {
        TxHeaderView { id: self.id, parent: self.parent, chunks: self.chunks@, seq: self.seq }
    }
}

/// A transaction header in the model of a log.
pub struct TxRecord {
    pub id: Uuid,
    pub parent: Uuid,
    pub chunks: Seq<Uuid>,
}

/// The model of a log: its head, its transactions in causal order, and the
/// content of every chunk it stores.
pub struct LogState {
    pub head: Uuid,
    pub txs: Seq<TxRecord>,
    pub chunks: Map<Uuid, TxPartView>,
}

impl LogState {
    /// The log before anything was written to it.
    pub open spec fn empty() -> LogState {
        LogState { head: Uuid { value: 0 }, txs: Seq::empty(), chunks: Map::empty() }
    }

    /// The history is one chain: no transaction is named by the nil
    /// identifier, no two share an identifier, the first follows nil and each
    /// other one follows its predecessor.
    pub open spec fn wf(self) -> bool {
        &&& forall|i: int| 0 <= i < self.txs.len() ==> (#[trigger] self.txs[i]).id.value != 0
        &&& forall|i: int, j: int|
            0 <= i < j < self.txs.len() ==> (#[trigger] self.txs[i]).id != (
            #[trigger] self.txs[j]).id
        &&& forall|i: int|
            0 <= i < self.txs.len() ==> (#[trigger] self.txs[i]).parent == (if i == 0 {
                Uuid { value: 0 }
            } else {
                self.txs[i - 1].id
            })
    }

    /// The log holds a transaction with this identifier.
    pub open spec fn has_transaction(self, id: Uuid) -> bool {
        exists|i: int| 0 <= i < self.txs.len() && (#[trigger] self.txs[i]).id == id
    }

    /// The identifier can serve as a watermark: it is nil, which stands
    /// before every transaction, or it names a transaction of the log.
    pub open spec fn knows(self, id: Uuid) -> bool {
        id.value == 0 || self.has_transaction(id)
    }

    /// Where the transaction with this identifier stands in the history.
    pub open spec fn position(self, id: Uuid) -> int {
        choose|i: int| 0 <= i < self.txs.len() && (#[trigger] self.txs[i]).id == id
    }

    /// The identifier of the last transaction, or nil for an empty history.
    pub open spec fn tip(self) -> Uuid {
        if self.txs.len() == 0 {
            Uuid { value: 0 }
        } else {
            self.txs.last().id
        }
    }

    /// The transactions that causally follow the watermark `id`, in order.
    pub open spec fn after(self, id: Uuid) -> Seq<TxRecord> {
        if id.value == 0 {
            self.txs
        } else {
            self.txs.skip(self.position(id) + 1)
        }
    }

    /// Every one of these chunks is stored.
    pub open spec fn has_chunks(self, chunks: Seq<Uuid>) -> bool {
        forall|k: int| 0 <= k < chunks.len() ==> self.chunks.contains_key(#[trigger] chunks[k])
    }

    /// Every chunk that a transaction after `id` names is stored.
    pub open spec fn complete_after(self, id: Uuid) -> bool {
        forall|i: int|
            0 <= i < self.after(id).len() ==> self.has_chunks((#[trigger] self.after(id)[i]).chunks)
    }

    /// The transaction with its facts read from the chunks it names.
    pub open spec fn hydrate(self, record: TxRecord) -> TxView {
        TxView {
            tx: record.id,
            parent: record.parent,
            parts: Seq::new(record.chunks.len(), |k: int| self.chunks[record.chunks[k]]),
        }
    }

    /// The transactions after `id`, each with its facts.
    pub open spec fn hydrated_after(self, id: Uuid) -> Seq<TxView> {
        Seq::new(self.after(id).len(), |i: int| self.hydrate(self.after(id)[i]))
    }

    /// Writing `part` under `id` respects the write-once rule: nothing is
    /// stored under `id` yet, or exactly `part` is.
    pub open spec fn chunk_fits(self, id: Uuid, part: TxPartView) -> bool {
        self.chunks.contains_key(id) ==> self.chunks[id] == part
    }

    /// The log after `part` was stored under `id`.
    pub open spec fn with_chunk(self, id: Uuid, part: TxPartView) -> LogState {
        LogState { chunks: self.chunks.insert(id, part), ..self }
    }

    /// The log holds exactly this header already.
    pub open spec fn has_record(self, record: TxRecord) -> bool {
        exists|i: int| 0 <= i < self.txs.len() && #[trigger] self.txs[i] == record
    }

    /// The header can be recorded: it is the one already recorded under its
    /// identifier, or its identifier is new and not nil and it follows the
    /// log's last transaction.
    pub open spec fn accepts(self, record: TxRecord) -> bool {
        ||| self.has_record(record)
        ||| (record.id.value != 0 && !self.has_transaction(record.id) && record.parent
            == self.tip())
    }

    /// The header can be recorded in a log that holds at most `capacity`
    /// transactions: it can be recorded, and the log holds it already or has
    /// room for one more.
    pub open spec fn admits(self, record: TxRecord, capacity: nat) -> bool {
        self.accepts(record) && (self.has_record(record) || self.txs.len() < capacity)
    }

    /// The log after `record` was recorded: unchanged where the log held it
    /// already, longer by one transaction otherwise.
    pub open spec fn with_transaction(self, record: TxRecord) -> LogState {
        if self.has_record(record) {
            self
        } else {
            LogState { txs: self.txs.push(record), ..self }
        }
    }

    /// The log after its head was set to `head`.
    pub open spec fn with_head(self, head: Uuid) -> LogState {
        LogState { head, ..self }
    }

    /// `later` holds all that this log holds: its history begins with this
    /// log's history, and every chunk of this log is stored in it with the
    /// same content. The heads may differ.
    pub open spec fn extends_to(self, later: LogState) -> bool {
        &&& self.txs.len() <= later.txs.len()
        &&& forall|i: int| 0 <= i < self.txs.len() ==> #[trigger] later.txs[i] == self.txs[i]
        &&& forall|k: Uuid| #[trigger]
            self.chunks.contains_key(k) ==> later.chunks.contains_key(k) && later.chunks[k]
                == self.chunks[k]
    }
}

/// The capability set of a transaction log. A local log and a remote log
/// implement it alike, and synchronization is written against it alone.
///
/// Every operation either takes full effect or fails and leaves the log as
/// it was. A dependable log owes success wherever the state of the log
/// allows the operation.
pub trait GlobalTransactionLog {
    /// What the log holds. A backend that gives no model of itself is
    /// taken to hold nothing.
    open spec fn view(&self) -> LogState {
        LogState::empty()
    }

    /// The log is in a state that its operations can work from. A backend
    /// that does not say when it is, is taken never to be: nothing that is
    /// proved of a caller rests on it.
    open spec fn inv(&self) -> bool {
        false
    }

    /// The log is dependable: an operation fails only where this
    /// interface says that it must. A log that can fail for reasons of its
    /// own, such as one behind a network, is not; a backend that does not
    /// say that it is dependable is taken not to be.
    open spec fn dependable(&self) -> bool {
        false
    }

    /// How many transactions the log can hold. A backend that does not say
    /// is taken to hold none.
    open spec fn capacity(&self) -> nat {
        0
    }

    /// Every identifier that the head was set to through this interface,
    /// oldest first. A backend that keeps no record is taken to have none.
    open spec fn head_writes(&self) -> Seq<Uuid> {
        Seq::empty()
    }

    /// The chunk identifier of every chunk write that succeeded through
    /// this interface, oldest first. A backend that keeps no record is
    /// taken to have none.
    open spec fn chunk_writes(&self) -> Seq<Uuid> {
        Seq::empty()
    }

    /// The current head. A dependable log always tells it.
    fn head(&self) -> (r: Result<Uuid, TolstoyError>)
        requires
            self.inv(),
        ensures
            r matches Ok(h) ==> h == self@.head,
            self.dependable() ==> r is Ok,
    ;

    /// Overwrites the head, whatever it was and whatever `uuid` names.
    fn set_head(&mut self, uuid: &Uuid) -> (r: Result<(), TolstoyError>)
        requires
            old(self).inv(),
        ensures
            final(self).inv(),
            final(self).dependable() == old(self).dependable(),
            final(self).capacity() == old(self).capacity(),
            r is Ok ==> final(self)@ == old(self)@.with_head(*uuid),
            r is Err ==> final(self)@ == old(self)@,
            old(self).dependable() ==> r is Ok,
            final(self).head_writes() == if r is Ok {
                old(self).head_writes().push(*uuid)
            } else {
                old(self).head_writes()
            },
            final(self).chunk_writes() == old(self).chunk_writes(),
    ;

    /// Every transaction that causally follows `tx`, in causal order, each
    /// with its facts. An identifier that the log does not know is refused
    /// as `BadRemoteState`, and so is a history that names a missing chunk.
    fn transactions_after(&self, tx: &Uuid) -> (r: Result<Vec<Tx>, TolstoyError>)
        requires
            self.inv(),
        ensures
            r matches Ok(txs) ==> {
                &&& self@.knows(*tx)
                &&& self@.complete_after(*tx)
                &&& txs_view(txs@) == self@.hydrated_after(*tx)
                &&& causal_chain(*tx, txs_view(txs@))
            },
            !self@.knows(*tx) ==> r matches Err(TolstoyError::BadRemoteState(_)),
            self@.knows(*tx) && !self@.complete_after(*tx) ==> r matches Err(
                TolstoyError::BadRemoteState(_),
            ),
            self.dependable() && self@.knows(*tx) && self@.complete_after(*tx) ==> r is Ok,
    ;

    /// Records a transaction header. Every chunk it names must have been
    /// stored before. Recording again a header that the log holds is no error
    /// and changes nothing.
    fn put_transaction(
        &mut self,
        transaction_uuid: &Uuid,
        parent_uuid: &Uuid,
        chunks: &Vec<Uuid>,
    ) -> (r: Result<(), TolstoyError>)
        requires
            old(self).inv(),
            old(self)@.has_chunks(chunks@),
        ensures
            final(self).inv(),
            r is Ok ==> {
                let record = TxRecord {
                    id: *transaction_uuid,
                    parent: *parent_uuid,
                    chunks: chunks@,
                };
                &&& old(self)@.accepts(record)
                &&& final(self)@ == old(self)@.with_transaction(record)
            },
            r is Ok ==> final(self)@.has_record(
                TxRecord { id: *transaction_uuid, parent: *parent_uuid, chunks: chunks@ },
            ),
            r is Err ==> final(self)@ == old(self)@,
            final(self).dependable() == old(self).dependable(),
            final(self).capacity() == old(self).capacity(),
            old(self).dependable() ==> (r is Ok <==> old(self)@.admits(
                TxRecord { id: *transaction_uuid, parent: *parent_uuid, chunks: chunks@ },
                old(self).capacity(),
            )),
            final(self).head_writes() == old(self).head_writes(),
            final(self).chunk_writes() == old(self).chunk_writes(),
    ;

    /// Stores the content of a chunk. Storing again what is stored already
    /// is no error and changes nothing.
    fn put_chunk(&mut self, chunk_uuid: &Uuid, payload: &TxPart) -> (r: Result<(), TolstoyError>)
        requires
            old(self).inv(),
        ensures
            final(self).inv(),
            r is Ok ==> {
                &&& old(self)@.chunk_fits(*chunk_uuid, payload@)
                &&& final(self)@ == old(self)@.with_chunk(*chunk_uuid, payload@)
            },
            r is Err ==> final(self)@ == old(self)@,
            final(self).dependable() == old(self).dependable(),
            final(self).capacity() == old(self).capacity(),
            old(self).dependable() ==> (r is Ok <==> old(self)@.chunk_fits(*chunk_uuid, payload@)),
            final(self).head_writes() == old(self).head_writes(),
            final(self).chunk_writes() == if r is Ok {
                old(self).chunk_writes().push(*chunk_uuid)
            } else {
                old(self).chunk_writes()
            },
    ;
}

/// In a well-formed log the position of a transaction is the only index at
/// which its identifier stands.
pub proof fn lemma_position_unique(log: LogState, i: int)
    requires
        log.wf(),
        0 <= i < log.txs.len(),
    ensures
        log.has_transaction(log.txs[i].id),
        log.position(log.txs[i].id) == i,
{
    let id = log.txs[i].id;
    let p = log.position(id);
    assert(0 <= p < log.txs.len() && log.txs[p].id == id);
    if p < i {
        assert(log.txs[p].id != log.txs[i].id);
    } else if i < p {
        assert(log.txs[i].id != log.txs[p].id);
    }
}

/// Causal ordering: in what a well-formed log hands out after a watermark it
/// knows, each transaction's parent is the identifier of the transaction
/// before it in the sequence, and the first one's parent is the watermark.
pub proof fn lemma_after_is_causal(log: LogState, after: Uuid)
    requires
        log.wf(),
        log.knows(after),
    ensures
        causal_chain(after, log.hydrated_after(after)),
{
    let txs = log.hydrated_after(after);
    if after.value == 0 {
        assert forall|i: int| 0 <= i < txs.len() implies (#[trigger] txs[i]).parent == (if i == 0 {
            after
        } else {
            txs[i - 1].tx
        }) by {
            assert(log.txs[i].parent == (if i == 0 {
                Uuid { value: 0 }
            } else {
                log.txs[i - 1].id
            }));
        }
    } else {
        let p = log.position(after);
        assert(0 <= p < log.txs.len() && log.txs[p].id == after);
        assert forall|i: int| 0 <= i < txs.len() implies (#[trigger] txs[i]).parent == (if i == 0 {
            after
        } else {
            txs[i - 1].tx
        }) by {
            assert(log.after(after)[i] == log.txs[p + 1 + i]);
            assert(log.txs[p + 1 + i].parent == log.txs[p + i].id);
            if i > 0 {
                assert(log.after(after)[i - 1] == log.txs[p + i]);
            }
        }
    }
}

/// Content-addressing idempotence: after a chunk was stored, storing the same
/// content under the same identifier again fits and changes nothing, reading
/// it gives that content, and any other content under that identifier does
/// not fit.
pub proof fn lemma_put_chunk_idempotent(log: LogState, id: Uuid, part: TxPartView, other: TxPartView)
    requires
        log.chunk_fits(id, part),
    ensures
        log.with_chunk(id, part).chunks[id] == part,
        log.with_chunk(id, part).chunk_fits(id, part),
        log.with_chunk(id, part).with_chunk(id, part) == log.with_chunk(id, part),
        other != part ==> !log.with_chunk(id, part).chunk_fits(id, other),
{
    let once = log.with_chunk(id, part);
    assert(once.chunks.insert(id, part) =~= once.chunks);
}

/// Round trip: after a header was accepted, the log holds under its
/// identifier a record with the parent and the chunks that were given, and
/// giving the same header again is accepted and changes nothing.
pub proof fn lemma_put_transaction_round_trip(log: LogState, record: TxRecord)
    requires
        log.wf(),
        log.accepts(record),
    ensures
        log.with_transaction(record).wf(),
        log.with_transaction(record).has_transaction(record.id),
        log.with_transaction(record).txs[log.with_transaction(record).position(record.id)]
            == record,
        log.with_transaction(record).accepts(record),
        log.with_transaction(record).with_transaction(record) == log.with_transaction(record),
{
    let next = log.with_transaction(record);
    if log.has_record(record) {
        let i = choose|i: int| 0 <= i < log.txs.len() && #[trigger] log.txs[i] == record;
        lemma_position_unique(log, i);
    } else {
        let n = log.txs.len() as int;
        assert(next.txs[n] == record);
        assert forall|i: int, j: int| 0 <= i < j < next.txs.len() implies (
        #[trigger] next.txs[i]).id != (#[trigger] next.txs[j]).id by {
            if j == n {
                assert(next.txs[i] == log.txs[i]);
                assert(!log.has_transaction(record.id));
            } else {
                assert(next.txs[i] == log.txs[i] && next.txs[j] == log.txs[j]);
            }
        }
        assert forall|i: int| 0 <= i < next.txs.len() implies (#[trigger] next.txs[i]).parent == (
        if i == 0 {
            Uuid { value: 0 }
        } else {
            next.txs[i - 1].id
        }) by {
            if i < n {
                assert(next.txs[i] == log.txs[i]);
                if i > 0 {
                    assert(next.txs[i - 1] == log.txs[i - 1]);
                }
            } else if i > 0 {
                assert(next.txs[i - 1] == log.txs[i - 1]);
                assert(log.txs.last() == log.txs[n - 1]);
            }
        }
        assert forall|i: int| 0 <= i < next.txs.len() implies (#[trigger] next.txs[i]).id.value
            != 0 by {
            if i < n {
                assert(next.txs[i] == log.txs[i]);
            }
        }
        assert(next.wf());
        lemma_position_unique(next, n);
        assert(next.has_record(record));
    }
}

/// A header that was recorded is held: whatever the log was, after
/// `record` was recorded it holds this very header, with the parent and the
/// chunks that were given.
pub proof fn lemma_recorded_header_is_held(log: LogState, record: TxRecord)
    ensures
        log.with_transaction(record).has_record(record),
{
    let next = log.with_transaction(record);
    if !log.has_record(record) {
        assert(next.txs[log.txs.len() as int] == record);
    }
}

/// Recording a header that the log holds is allowed, whatever the capacity
/// of the log, and leaves the log as it is.
pub proof fn lemma_held_header_is_admitted(log: LogState, record: TxRecord, capacity: nat)
    requires
        log.has_record(record),
    ensures
        log.accepts(record),
        log.admits(record, capacity),
        log.with_transaction(record) == log,
{
}

} // verus!
