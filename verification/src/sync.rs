//! The synchronizer: pull what the remote log has, apply it locally, then
//! push what only the local store has.

use vstd::prelude::*;
use crate::errors::TolstoyError;
use crate::facts::{parts_view, txs_view, Identifier, Tx, TxPartView, TxView};
use crate::ids::Uuid;
use crate::log::{GlobalTransactionLog, LogState, TxRecord};
use crate::remap::{
    check_metadata, covers, instant_count, mentions, remap_all, remap_transaction, IdAllocator,
};
use crate::store::{
    local_parts_view, local_txs_view, LocalPart, LocalStore, LocalTx, LocalTxView, StoreState,
};

verus! {

/// `facts` are `source` after remapping with some table that maps every
/// temporary identifier of `source`.
pub open spec fn is_remap_of(source: Seq<TxPartView>, facts: Seq<TxPartView>) -> bool {
    exists|m: Map<i64, i64>|
        #![trigger remap_all(source, m)]
        facts == remap_all(source, m) && forall|i: int|
            0 <= i < source.len() ==> covers(m, #[trigger] source[i])
}

/// The store `after` is the store `before` with the first `n` of `txs`
/// applied, in order, each remapped and each with exactly one instant, and
/// its head is the last of them, or where it was if `n` is zero.
pub open spec fn applied_through(
    before: StoreState,
    after: StoreState,
    txs: Seq<TxView>,
    n: int,
) -> bool {
    &&& 0 <= n <= txs.len()
    &&& after.applied.len() == before.applied.len() + n
    &&& after.applied.take(before.applied.len() as int) =~= before.applied
    &&& forall|k: int|
        0 <= k < n ==> is_remap_of((#[trigger] txs[k]).parts, after.applied[before.applied.len() + k])
            && instant_count(txs[k].parts) == 1
    &&& after.head == if n == 0 {
        before.head
    } else {
        txs[n - 1].tx
    }
}

/// How many facts the transactions hold together.
pub open spec fn total_parts(txs: Seq<TxView>) -> nat
    decreases txs.len(),
{
    if txs.len() == 0 {
        0
    } else {
        total_parts(txs.drop_last()) + txs.last().parts.len()
    }
}

/// Each of the transactions holds exactly one fact that asserts its
/// instant.
pub open spec fn well_marked(txs: Seq<TxView>) -> bool {
    forall|k: int| 0 <= k < txs.len() ==> instant_count((#[trigger] txs[k]).parts) == 1
}

/// The first transactions hold no more facts than all of them.
pub proof fn lemma_total_parts_prefix(txs: Seq<TxView>, k: int)
    requires
        0 <= k <= txs.len(),
    ensures
        total_parts(txs.take(k)) <= total_parts(txs),
    decreases txs.len(),
{
    if k == txs.len() {
        assert(txs.take(k) =~= txs);
    } else {
        lemma_total_parts_prefix(txs.drop_last(), k);
        assert(txs.drop_last().take(k) =~= txs.take(k));
    }
}

/// What the answer of the store to applying a transaction means for the
/// pass: it goes on where the store has finished, a store that has not is
/// `TxProcessorUnfinished`, and a failure of the store is passed on.
pub fn applied_or_unfinished(answer: Result<bool, TolstoyError>) -> (r: Result<(), TolstoyError>)
    ensures
        match answer {
            Ok(true) => r is Ok,
            Ok(false) => r == Err::<(), TolstoyError>(TolstoyError::TxProcessorUnfinished),
            Err(e) => r == Err::<(), TolstoyError>(e),
        },
{
    match answer {
        Ok(true) => Ok(()),
        Ok(false) => Err(TolstoyError::TxProcessorUnfinished),
        Err(e) => Err(e),
    }
}

/// Applies pulled transactions to the local store, in order. For each one:
/// its metadata is checked, its facts are remapped with a table of its own,
/// the facts are applied as one local transaction, and the local head moves
/// to it. The first failure ends the pass, with the head at the last
/// transaction that was applied.
///
/// A store that does not report completion gives `TxProcessorUnfinished`.
pub fn apply_transactions<S: LocalStore, A: IdAllocator>(
    store: &mut S,
    ids: &mut A,
    txs: &Vec<Tx>,
) -> (r: Result<(), TolstoyError>)
    ensures
        applied_through(
            old(store)@,
            final(store)@,
            txs_view(txs@),
            final(store)@.applied.len() - old(store)@.applied.len(),
        ),
        forall|u: Uuid| final(store).made_since(u) == old(store).made_since(u),
        old(ids).allocated().subset_of(final(ids).allocated()),
        r is Ok ==> final(store)@.applied.len() - old(store)@.applied.len() == txs.len(),
        r matches Err(e) ==> {
            let n = final(store)@.applied.len() - old(store)@.applied.len();
            &&& n < txs.len()
            &&& instant_count(txs@[n]@.parts) == 0 ==> e is BadRemoteState
            &&& instant_count(txs@[n]@.parts) > 1 ==> e is DuplicateMetadata
        },
        final(store).dependable() == old(store).dependable(),
        old(store).dependable() && well_marked(txs_view(txs@)) && old(ids).remaining() >= 2
            * total_parts(txs_view(txs@)) ==> r is Ok,
        final(store).head_moves() == old(store).head_moves() + tx_ids(txs_view(txs@)).take(
            final(store)@.applied.len() - old(store)@.applied.len(),
        ),
{
    let ghost before = store@;
    let ghost pulled = txs_view(txs@);
    let mut i: usize = 0;
    assert(before.applied.take(before.applied.len() as int) =~= before.applied);
    assert(pulled.take(0) =~= Seq::<TxView>::empty());
    assert(store.head_moves() + tx_ids(pulled).take(0) =~= store.head_moves());
    while i < txs.len()
        invariant
            i <= txs.len(),
            before == old(store)@,
            pulled == txs_view(txs@),
            store@.applied.len() == before.applied.len() + i,
            applied_through(before, store@, pulled, i as int),
            forall|u: Uuid| store.made_since(u) == old(store).made_since(u),
            old(ids).allocated().subset_of(ids.allocated()),
            store.dependable() == old(store).dependable(),
            store.head_moves() == old(store).head_moves() + tx_ids(pulled).take(i as int),
            ids.remaining() + 2 * total_parts(pulled.take(i as int)) >= old(ids).remaining(),
        decreases txs.len() - i,
    {
        let tx = &txs[i];
        let ghost handed = ids.allocated();
        assert(pulled[i as int] == tx@);
        proof {
            assert(pulled.take(i + 1).drop_last() =~= pulled.take(i as int));
            assert(pulled.take(i + 1).last() == tx@);
            lemma_total_parts_prefix(pulled, i + 1);
            assert(tx@.parts.len() == tx.parts.len());
        }
        match check_metadata(&tx.parts) {
            Ok(()) => {},
            Err(e) => {
                return Err(e);
            },
        }
        let (facts, table) = match remap_transaction(&tx.parts, ids) {
            Ok(done) => done,
            Err(e) => {
                proof {
                    lemma_subset_transitive(old(ids).allocated(), handed, ids.allocated());
                }
                return Err(e);
            },
        };
        proof {
            lemma_subset_transitive(old(ids).allocated(), handed, ids.allocated());
        }
        let ghost mid = store@;
        let answer = store.apply(&facts);
        match applied_or_unfinished(answer) {
            Ok(()) => {},
            Err(e) => {
                return Err(e);
            },
        }
        let ghost moved = store.head_moves();
        store.advance_local_head(&tx.tx);
        proof {
            assert(tx_ids(pulled).take(i + 1) =~= tx_ids(pulled).take(i as int).push(tx.tx));
            assert(old(store).head_moves() + tx_ids(pulled).take(i as int).push(tx.tx) =~= (old(store).head_moves() + tx_ids(pulled).take(i as int)).push(tx.tx));
            let source = tx@.parts;
            let now = store@;
            assert(now.applied == mid.applied.push(parts_view(facts@)));
            assert(now.applied.take(before.applied.len() as int) =~= before.applied) by {
                assert(mid.applied.take(before.applied.len() as int) == before.applied);
            }
            assert(is_remap_of(source, now.applied[before.applied.len() + i])) by {
                assert(now.applied[before.applied.len() + i] == remap_all(source, table@));
                assert forall|k: int| 0 <= k < source.len() implies covers(
                    table@,
                    #[trigger] source[k],
                ) by {
                    lemma_table_covers(source, table@, k);
                }
            }
            assert forall|k: int| 0 <= k < i + 1 implies is_remap_of(
                (#[trigger] pulled[k]).parts,
                now.applied[before.applied.len() + k],
            ) && instant_count(pulled[k].parts) == 1 by {
                if k < i {
                    assert(now.applied[before.applied.len() + k] == mid.applied[before.applied.len()
                        + k]);
                }
            }
        }
        i += 1;
    }
    Ok(())
}

/// A table that maps every temporary identifier that the facts mention
/// covers each of the facts.
pub proof fn lemma_table_covers(source: Seq<TxPartView>, m: Map<i64, i64>, k: int)
    requires
        0 <= k < source.len(),
        forall|t: i64| #[trigger] m.contains_key(t) <==> mentions(source, t),
    ensures
        covers(m, source[k]),
{
    if let Identifier::Temp(t) = source[k].e {
        assert(mentions(source, t));
    }
    if let Some(Identifier::Temp(t)) = source[k].value_ref() {
        assert(mentions(source, t));
    }
}

/// What is within a set is within every set that holds that set.
pub proof fn lemma_subset_transitive(a: Set<i64>, b: Set<i64>, c: Set<i64>)
    requires
        a.subset_of(b),
        b.subset_of(c),
    ensures
        a.subset_of(c),
{
    assert forall|s: i64| a.contains(s) implies c.contains(s) by {
        assert(b.contains(s));
    }
}

/// The chunk identifiers of local facts, in order.
pub open spec fn chunk_ids(parts: Seq<(Uuid, TxPartView)>) -> Seq<Uuid> {
    Seq::new(parts.len(), |i: int| parts[i].0)
}

/// The log after each of the facts was stored under its chunk identifier.
pub open spec fn with_chunks(log: LogState, parts: Seq<(Uuid, TxPartView)>) -> LogState
    decreases parts.len(),
{
    if parts.len() == 0 {
        log
    } else {
        with_chunks(log, parts.drop_last()).with_chunk(parts.last().0, parts.last().1)
    }
}

/// The log after one transaction was pushed: its facts are stored as
/// chunks, its header is recorded, and the head names it.
pub open spec fn after_push(
    log: LogState,
    id: Uuid,
    parent: Uuid,
    parts: Seq<(Uuid, TxPartView)>,
) -> LogState {
    with_chunks(log, parts).with_transaction(
        TxRecord { id, parent, chunks: chunk_ids(parts) },
    ).with_head(id)
}

/// The parent of the pushed transaction at `i`: the one pushed before it,
/// or `first_parent` for the first.
pub open spec fn parent_at(first_parent: Uuid, ids: Seq<Uuid>, i: int) -> Uuid {
    if i == 0 {
        first_parent
    } else {
        ids[i - 1]
    }
}

/// The log after the local transactions were pushed in order under the
/// identifiers `ids`, the first of them as the child of `first_parent`.
pub open spec fn after_pushes(
    log: LogState,
    first_parent: Uuid,
    local: Seq<LocalTxView>,
    ids: Seq<Uuid>,
) -> LogState
    decreases local.len(),
{
    if local.len() == 0 {
        log
    } else {
        let n = local.len() - 1;
        after_push(
            after_pushes(log, first_parent, local.take(n), ids.take(n)),
            ids[n],
            parent_at(first_parent, ids, n),
            local[n].parts,
        )
    }
}

/// A chunk that fits can be stored without losing anything.
pub proof fn lemma_with_chunk_extends(log: LogState, id: Uuid, part: TxPartView)
    requires
        log.chunk_fits(id, part),
    ensures
        log.extends_to(log.with_chunk(id, part)),
        log.with_chunk(id, part).head == log.head,
{
}

/// Recording a header loses nothing.
pub proof fn lemma_with_transaction_extends(log: LogState, record: TxRecord)
    ensures
        log.extends_to(log.with_transaction(record)),
        log.with_transaction(record).head == log.head,
{
}

/// What a log holds stays through every log that holds more.
pub proof fn lemma_extends_transitive(a: LogState, b: LogState, c: LogState)
    requires
        a.extends_to(b),
        b.extends_to(c),
    ensures
        a.extends_to(c),
{
    assert forall|i: int| 0 <= i < a.txs.len() implies #[trigger] c.txs[i] == a.txs[i] by {
        assert(b.txs[i] == a.txs[i]);
    }
    assert forall|k: Uuid| #[trigger] a.chunks.contains_key(k) implies c.chunks.contains_key(k)
        && c.chunks[k] == a.chunks[k] by {
        assert(b.chunks.contains_key(k));
    }
}

/// Each of the facts fits the log at the time it is stored: after the
/// facts before it were stored, nothing else is stored under its chunk
/// identifier.
pub open spec fn chunks_fit(log: LogState, parts: Seq<(Uuid, TxPartView)>) -> bool
    decreases parts.len(),
{
    if parts.len() == 0 {
        true
    } else {
        chunks_fit(log, parts.drop_last()) && with_chunks(log, parts.drop_last()).chunk_fits(
            parts.last().0,
            parts.last().1,
        )
    }
}

/// The log allows the push of one transaction: each of its facts fits, and
/// with the facts stored the log admits its header.
pub open spec fn pushable(
    log: LogState,
    capacity: nat,
    id: Uuid,
    parent: Uuid,
    parts: Seq<(Uuid, TxPartView)>,
) -> bool {
    chunks_fit(log, parts) && with_chunks(log, parts).admits(
        TxRecord { id, parent, chunks: chunk_ids(parts) },
        capacity,
    )
}

/// Facts that fit the log one after the other do so up to any of them.
pub proof fn lemma_chunks_fit_prefix(log: LogState, parts: Seq<(Uuid, TxPartView)>, k: int)
    requires
        chunks_fit(log, parts),
        0 <= k <= parts.len(),
    ensures
        chunks_fit(log, parts.take(k)),
    decreases parts.len(),
{
    if k == parts.len() {
        assert(parts.take(k) =~= parts);
    } else {
        lemma_chunks_fit_prefix(log, parts.drop_last(), k);
        assert(parts.drop_last().take(k) =~= parts.take(k));
    }
}

/// Every one of the local transactions has an identifier.
pub open spec fn all_named(local: Seq<LocalTxView>) -> bool {
    forall|i: int| 0 <= i < local.len() ==> (#[trigger] local[i]).uuid is Some
}

/// The identifier of a local transaction; nil for one that has none.
pub open spec fn name_of(tx: LocalTxView) -> Uuid {
    match tx.uuid {
        Some(id) => id,
        None => Uuid { value: 0 },
    }
}

/// The identifiers of the local transactions, in order.
pub open spec fn names_of(local: Seq<LocalTxView>) -> Seq<Uuid> {
    Seq::new(local.len(), |i: int| name_of(local[i]))
}

/// The log allows the push of the local transactions under their own
/// identifiers, one after the other: each is pushable once those before it
/// were pushed, the first as the child of `first_parent` and each other one
/// as the child of the one before it.
pub open spec fn pushes_admitted(
    log: LogState,
    capacity: nat,
    first_parent: Uuid,
    local: Seq<LocalTxView>,
) -> bool
    decreases local.len(),
{
    if local.len() == 0 {
        true
    } else {
        let n = local.len() - 1;
        let ids = names_of(local);
        pushes_admitted(log, capacity, first_parent, local.take(n)) && pushable(
            after_pushes(log, first_parent, local.take(n), ids.take(n)),
            capacity,
            ids[n],
            parent_at(first_parent, ids, n),
            local[n].parts,
        )
    }
}

/// Local transactions whose pushes the log allows one after the other are
/// allowed up to any of them.
pub proof fn lemma_pushes_admitted_prefix(
    log: LogState,
    capacity: nat,
    first_parent: Uuid,
    local: Seq<LocalTxView>,
    k: int,
)
    requires
        pushes_admitted(log, capacity, first_parent, local),
        0 <= k <= local.len(),
    ensures
        pushes_admitted(log, capacity, first_parent, local.take(k)),
    decreases local.len(),
{
    if k == local.len() {
        assert(local.take(k) =~= local);
    } else {
        let n = local.len() - 1;
        lemma_pushes_admitted_prefix(log, capacity, first_parent, local.take(n), k);
        assert(local.take(n).take(k) =~= local.take(k));
    }
}

/// The fact at `index` repeats an earlier one: a fact before it has its
/// chunk and its content.
pub open spec fn repeats(parts: Seq<(Uuid, TxPartView)>, index: int) -> bool {
    exists|j: int| 0 <= j < index && #[trigger] parts[j] == parts[index]
}

/// The facts without those that repeat an earlier one, in order: what a
/// push writes as chunks.
pub open spec fn first_seen(parts: Seq<(Uuid, TxPartView)>) -> Seq<(Uuid, TxPartView)>
    decreases parts.len(),
{
    if parts.len() == 0 {
        Seq::empty()
    } else if repeats(parts, parts.len() - 1) {
        first_seen(parts.drop_last())
    } else {
        first_seen(parts.drop_last()).push(parts.last())
    }
}

/// What a push writes comes from the transaction: each written fact is one
/// of its facts. The index of such a fact is handed back.
pub proof fn lemma_first_seen_source(parts: Seq<(Uuid, TxPartView)>, i: int) -> (m: int)
    requires
        0 <= i < first_seen(parts).len(),
    ensures
        0 <= m < parts.len(),
        parts[m] == first_seen(parts)[i],
    decreases parts.len(),
{
    let rest = parts.drop_last();
    if !repeats(parts, parts.len() - 1) && i == first_seen(rest).len() {
        parts.len() - 1
    } else {
        let m = lemma_first_seen_source(rest, i);
        assert(rest[m] == parts[m]);
        m
    }
}

/// A push writes a chunk once: no two of the facts that it writes have the
/// same chunk and the same content, however often the transaction holds
/// them.
pub proof fn lemma_first_seen_once(parts: Seq<(Uuid, TxPartView)>, i: int, j: int)
    requires
        0 <= i < j < first_seen(parts).len(),
    ensures
        first_seen(parts)[i] != first_seen(parts)[j],
    decreases parts.len(),
{
    let rest = parts.drop_last();
    if repeats(parts, parts.len() - 1) {
        lemma_first_seen_once(rest, i, j);
    } else if j < first_seen(rest).len() {
        lemma_first_seen_once(rest, i, j);
    } else {
        let m = lemma_first_seen_source(rest, i);
        assert(first_seen(parts)[i] == first_seen(rest)[i]);
        assert(first_seen(parts)[j] == parts[parts.len() - 1]);
        assert(parts[m] == rest[m]);
        if first_seen(parts)[i] == first_seen(parts)[j] {
            assert(parts[m] == parts[parts.len() - 1]);
            assert(repeats(parts, parts.len() - 1));
        }
    }
}

/// The chunk writes `after` are the chunk writes `before` and then one for
/// each of the first `k` facts that repeats no earlier one.
pub open spec fn wrote_up_to(
    before: Seq<Uuid>,
    after: Seq<Uuid>,
    parts: Seq<(Uuid, TxPartView)>,
    k: int,
) -> bool {
    0 <= k <= parts.len() && after == before + chunk_ids(first_seen(parts.take(k)))
}

/// The log `after` is the log `before` with the first `k` of the facts
/// stored, and nothing else.
pub open spec fn stored_up_to(
    before: LogState,
    after: LogState,
    parts: Seq<(Uuid, TxPartView)>,
    k: int,
) -> bool {
    0 <= k <= parts.len() && after == with_chunks(before, parts.take(k))
}

/// Where a push that failed left the log: with some of the facts stored
/// and no header recorded for them, or, where only the head could not be
/// moved, with all facts stored and the header recorded. The head is where
/// it was in either case.
pub open spec fn push_left_off(
    before: LogState,
    after: LogState,
    id: Uuid,
    parent: Uuid,
    parts: Seq<(Uuid, TxPartView)>,
) -> bool {
    ||| exists|k: int| stored_up_to(before, after, parts, k)
    ||| after == with_chunks(before, parts).with_transaction(
        TxRecord { id, parent, chunks: chunk_ids(parts) },
    )
}

/// The log `after` is where a failed push of the local transaction at
/// `ids.len() - 1` left it, after those before it were pushed under `ids`;
/// the head was written once for each that was pushed, to its identifier.
pub open spec fn left_off_under(
    before: LogState,
    after: LogState,
    heads_before: Seq<Uuid>,
    heads_after: Seq<Uuid>,
    first_parent: Uuid,
    local: Seq<LocalTxView>,
    ids: Seq<Uuid>,
) -> bool {
    let n = ids.len() - 1;
    &&& 0 < ids.len() <= local.len()
    &&& heads_after == heads_before + ids.take(n)
    &&& forall|k: int|
        0 <= k < ids.len() ==> ((#[trigger] local[k]).uuid matches Some(u) ==> ids[k] == u)
    &&& push_left_off(
        after_pushes(before, first_parent, local.take(n), ids.take(n)),
        after,
        ids[n],
        parent_at(first_parent, ids, n),
        local[n].parts,
    )
}

/// Where a pass of pushes that failed left the log: some of the local
/// transactions are pushed, in order, and the push of the next one was left
/// off. What was pushed stays.
pub open spec fn pushes_left_off(
    before: LogState,
    after: LogState,
    heads_before: Seq<Uuid>,
    heads_after: Seq<Uuid>,
    first_parent: Uuid,
    local: Seq<LocalTxView>,
) -> bool {
    exists|ids: Seq<Uuid>|
        left_off_under(before, after, heads_before, heads_after, first_parent, local, ids)
}

/// Whether one of the facts before `index` has the chunk and the content of
/// the fact at `index`.
fn uploaded_before(parts: &Vec<LocalPart>, index: usize) -> (found: bool)
    requires
        index < parts.len(),
    ensures
        found == exists|j: int|
            0 <= j < index && (#[trigger] parts[j]).chunk == parts[index as int].chunk
                && parts[j].part@ == parts[index as int].part@,
{
    let mut j: usize = 0;
    while j < index
        invariant
            j <= index < parts.len(),
            forall|k: int|
                0 <= k < j ==> !((#[trigger] parts[k]).chunk == parts[index as int].chunk
                    && parts[k].part@ == parts[index as int].part@),
        decreases index - j,
    {
        if parts[j].chunk == parts[index].chunk && parts[j].part.same_as(&parts[index].part) {
            return true;
        }
        j += 1;
    }
    false
}

/// Pushes one transaction: stores each of its facts as a chunk, then records
/// its header, then moves the remote head to it. A fact whose chunk and
/// content an earlier fact of the transaction has is not stored again, so
/// each chunk is written once. The first failure ends the push with the head
/// where it was; after a failed chunk write no header is recorded.
///
/// The head is written once, on success, and to `id`.
pub fn push_transaction<R: GlobalTransactionLog>(
    remote: &mut R,
    id: &Uuid,
    parent: &Uuid,
    parts: &Vec<LocalPart>,
) -> (r: Result<(), TolstoyError>)
    requires
        old(remote).inv(),
    ensures
        final(remote).inv(),
        old(remote)@.extends_to(final(remote)@),
        r is Ok ==> final(remote)@ == after_push(
            old(remote)@,
            *id,
            *parent,
            local_parts_view(parts@),
        ),
        r is Err ==> final(remote)@.head == old(remote)@.head,
        r is Err ==> push_left_off(
            old(remote)@,
            final(remote)@,
            *id,
            *parent,
            local_parts_view(parts@),
        ),
        final(remote).dependable() == old(remote).dependable(),
        final(remote).capacity() == old(remote).capacity(),
        old(remote).dependable() ==> (r is Ok <==> pushable(
            old(remote)@,
            old(remote).capacity(),
            *id,
            *parent,
            local_parts_view(parts@),
        )),
        final(remote).head_writes() == if r is Ok {
            old(remote).head_writes().push(*id)
        } else {
            old(remote).head_writes()
        },
        r is Ok ==> final(remote).chunk_writes() == old(remote).chunk_writes() + chunk_ids(
            first_seen(local_parts_view(parts@)),
        ),
        r is Err ==> exists|k: int|
            wrote_up_to(
                old(remote).chunk_writes(),
                final(remote).chunk_writes(),
                local_parts_view(parts@),
                k,
            ),
{
    let ghost before = remote@;
    let ghost source = local_parts_view(parts@);
    let ghost written = remote.chunk_writes();
    let mut chunks: Vec<Uuid> = Vec::new();
    let mut k: usize = 0;
    proof {
        assert(source.take(0) =~= Seq::empty());
        assert(written + chunk_ids(first_seen(source.take(0))) =~= written);
    }
    while k < parts.len()
        invariant
            k <= parts.len(),
            written == old(remote).chunk_writes(),
            remote.head_writes() == old(remote).head_writes(),
            remote.chunk_writes() == written + chunk_ids(first_seen(source.take(k as int))),
            before == old(remote)@,
            source == local_parts_view(parts@),
            remote.inv(),
            remote.dependable() == old(remote).dependable(),
            remote.capacity() == old(remote).capacity(),
            old(remote).dependable() ==> chunks_fit(before, source.take(k as int)),
            before.extends_to(remote@),
            remote@.head == before.head,
            remote@ == with_chunks(before, source.take(k as int)),
            chunks@ == chunk_ids(source.take(k as int)),
            forall|j: int|
                0 <= j < k ==> remote@.chunks.contains_key((#[trigger] source[j]).0)
                    && remote@.chunks[source[j].0] == source[j].1,
        decreases parts.len() - k,
    {
        let ghost earlier = remote@;
        let item = &parts[k];
        proof {
            assert(source[k as int] == (item.chunk, item.part@));
            assert(source.take(k + 1).drop_last() =~= source.take(k as int));
            assert(source.take(k + 1).last() == source[k as int]);
        }
        let ghost now = source.take(k + 1);
        let ghost seen = first_seen(source.take(k as int));
        if uploaded_before(parts, k) {
            proof {
                let j = choose|j: int|
                    0 <= j < k && (#[trigger] parts[j]).chunk == parts[k as int].chunk
                        && parts[j].part@ == parts[k as int].part@;
                assert(source[j] == (parts[j].chunk, parts[j].part@));
                assert(earlier.chunks.insert(item.chunk, item.part@) =~= earlier.chunks);
                assert(now[j] == now[k as int]);
                assert(repeats(now, k as int));
            }
        } else {
            proof {
                if repeats(now, k as int) {
                    let j = choose|j: int| 0 <= j < k && #[trigger] now[j] == now[k as int];
                    assert(source[j] == (parts[j].chunk, parts[j].part@));
                    assert(parts[j].chunk == parts[k as int].chunk && parts[j].part@
                        == parts[k as int].part@);
                }
            }
            match remote.put_chunk(&item.chunk, &item.part) {
                Ok(()) => {
                    proof {
                        lemma_with_chunk_extends(earlier, item.chunk, item.part@);
                        lemma_extends_transitive(before, earlier, remote@);
                        assert(chunk_ids(seen.push(source[k as int])) =~= chunk_ids(seen).push(
                            item.chunk,
                        ));
                        assert(written + chunk_ids(seen).push(item.chunk) =~= (written
                            + chunk_ids(seen)).push(item.chunk));
                    }
                },
                Err(e) => {
                    proof {
                        if old(remote).dependable() && chunks_fit(before, source) {
                            lemma_chunks_fit_prefix(before, source, k + 1);
                        }
                        assert(stored_up_to(before, remote@, source, k as int));
                        assert(wrote_up_to(written, remote.chunk_writes(), source, k as int));
                    }
                    return Err(e);
                },
            }
        }
        chunks.push(item.chunk);
        proof {
            assert(chunks@ =~= chunk_ids(source.take(k + 1)));
            assert forall|j: int| 0 <= j < k + 1 implies remote@.chunks.contains_key(
                (#[trigger] source[j]).0,
            ) && remote@.chunks[source[j].0] == source[j].1 by {
                if j < k {
                    assert(earlier.chunks.contains_key(source[j].0));
                }
            }
        }
        k += 1;
    }
    proof {
        assert(source.take(k as int) =~= source);
        assert(remote@.has_chunks(chunks@)) by {
            assert forall|j: int| 0 <= j < chunks@.len() implies remote@.chunks.contains_key(
                #[trigger] chunks@[j],
            ) by {
                assert(chunks@[j] == source[j].0);
            }
        }
    }
    let ghost stored = remote@;
    assert(chunks@ == chunk_ids(source));
    match remote.put_transaction(id, parent, &chunks) {
        Ok(()) => {},
        Err(e) => {
            proof {
                assert(stored_up_to(before, remote@, source, source.len() as int));
                assert(wrote_up_to(written, remote.chunk_writes(), source, source.len() as int));
            }
            return Err(e);
        },
    }
    let ghost recorded = remote@;
    proof {
        lemma_with_transaction_extends(
            stored,
            TxRecord { id: *id, parent: *parent, chunks: chunks@ },
        );
        lemma_extends_transitive(before, stored, recorded);
        assert(wrote_up_to(written, remote.chunk_writes(), source, source.len() as int));
    }
    match remote.set_head(id) {
        Ok(()) => Ok(()),
        Err(e) => Err(e),
    }
}

/// Pushes local transactions in order. One that has no identifier yet gets
/// a fresh random one. The first is pushed as the child of `parent`, each
/// other one as the child of the one before it. The first failure ends the
/// pass; what was pushed before it stays.
///
/// On success the identifiers under which the transactions were pushed come
/// back, in order.
pub fn push_transactions<R: GlobalTransactionLog>(
    remote: &mut R,
    parent: &Uuid,
    local: &Vec<LocalTx>,
) -> (r: Result<Vec<Uuid>, TolstoyError>)
    requires
        old(remote).inv(),
    ensures
        final(remote).inv(),
        old(remote)@.extends_to(final(remote)@),
        final(remote)@.head == old(remote)@.head || final(remote)@.has_transaction(
            final(remote)@.head,
        ),
        r matches Ok(pushed) ==> {
            &&& pushed.len() == local.len()
            &&& forall|i: int|
                0 <= i < local.len() ==> ((#[trigger] local[i]).uuid matches Some(u) ==> pushed[i]
                    == u)
            &&& final(remote)@ == after_pushes(
                old(remote)@,
                *parent,
                local_txs_view(local@),
                pushed@,
            )
        },
        r is Err ==> pushes_left_off(
            old(remote)@,
            final(remote)@,
            old(remote).head_writes(),
            final(remote).head_writes(),
            *parent,
            local_txs_view(local@),
        ),
        r matches Ok(pushed) ==> final(remote).head_writes() == old(remote).head_writes()
            + pushed@,
        final(remote).dependable() == old(remote).dependable(),
        final(remote).capacity() == old(remote).capacity(),
        local.len() == 0 ==> r is Ok,
        old(remote).dependable() && all_named(local_txs_view(local@)) ==> (r is Ok
            <==> pushes_admitted(
            old(remote)@,
            old(remote).capacity(),
            *parent,
            local_txs_view(local@),
        )),
{
    let ghost before = remote@;
    let ghost source = local_txs_view(local@);
    let mut pushed: Vec<Uuid> = Vec::new();
    let mut follows: Uuid = *parent;
    let mut i: usize = 0;
    proof {
        assert(source.take(0) =~= Seq::<LocalTxView>::empty());
        assert(old(remote).head_writes() + pushed@ =~= old(remote).head_writes());
    }
    while i < local.len()
        invariant
            i <= local.len(),
            before == old(remote)@,
            source == local_txs_view(local@),
            remote.inv(),
            before.extends_to(remote@),
            remote@.head == before.head || remote@.has_transaction(remote@.head),
            pushed.len() == i,
            follows == parent_at(*parent, pushed@, i as int),
            forall|k: int|
                0 <= k < i ==> ((#[trigger] local[k]).uuid matches Some(u) ==> pushed[k] == u),
            remote@ == after_pushes(before, *parent, source.take(i as int), pushed@),
            remote.dependable() == old(remote).dependable(),
            remote.capacity() == old(remote).capacity(),
            remote.head_writes() == old(remote).head_writes() + pushed@,
            all_named(source) ==> pushed@ == names_of(source).take(i as int),
            old(remote).dependable() && all_named(source) ==> pushes_admitted(
                before,
                old(remote).capacity(),
                *parent,
                source.take(i as int),
            ),
        decreases local.len() - i,
    {
        let tx = &local[i];
        let id = match tx.uuid {
            Some(u) => u,
            None => Uuid::new_v4(),
        };
        let ghost earlier = remote@;
        let ghost earlier_pushed = pushed@;
        proof {
            assert(source[i as int] == tx@);
            if all_named(source) {
                let now = source.take(i + 1);
                assert(now.take(i as int) =~= source.take(i as int));
                assert(names_of(now).take(i as int) =~= earlier_pushed);
                assert(names_of(now)[i as int] == id);
                assert(parent_at(*parent, names_of(now), i as int) == follows);
            }
        }
        match push_transaction(remote, &id, &follows, &tx.parts) {
            Ok(()) => {},
            Err(e) => {
                proof {
                    if old(remote).dependable() && all_named(source) && pushes_admitted(
                        before,
                        old(remote).capacity(),
                        *parent,
                        source,
                    ) {
                        lemma_pushes_admitted_prefix(
                            before,
                            old(remote).capacity(),
                            *parent,
                            source,
                            i + 1,
                        );
                    }
                    lemma_extends_transitive(before, earlier, remote@);
                    let tried = earlier_pushed.push(id);
                    assert(tried.take(i as int) =~= earlier_pushed);
                    assert(left_off_under(
                        before,
                        remote@,
                        old(remote).head_writes(),
                        remote.head_writes(),
                        *parent,
                        source,
                        tried,
                    ));
                    if earlier.has_transaction(earlier.head) {
                        let at = choose|at: int|
                            0 <= at < earlier.txs.len() && (#[trigger] earlier.txs[at]).id
                                == earlier.head;
                        assert(remote@.txs[at] == earlier.txs[at]);
                    }
                }
                return Err(e);
            },
        }
        pushed.push(id);
        proof {
            assert(old(remote).head_writes() + earlier_pushed.push(id) =~= (old(remote).head_writes() + earlier_pushed).push(id));
            lemma_extends_transitive(before, earlier, remote@);
            assert(source[i as int] == tx@);
            if all_named(source) {
                assert(pushed@ =~= names_of(source).take(i + 1));
            }
            assert(source.take(i + 1).take(i as int) =~= source.take(i as int));
            assert(pushed@.take(i as int) =~= earlier_pushed);
            assert(source.take(i + 1)[i as int] == source[i as int]);
            let record = TxRecord {
                id,
                parent: follows,
                chunks: chunk_ids(tx@.parts),
            };
            let stored = with_chunks(earlier, tx@.parts);
            assert(remote@ == stored.with_transaction(record).with_head(id));
            if stored.has_record(record) {
                let at = choose|at: int|
                    0 <= at < stored.txs.len() && #[trigger] stored.txs[at] == record;
                assert(remote@.txs[at].id == id);
            } else {
                assert(remote@.txs[stored.txs.len() as int].id == id);
            }
        }
        follows = id;
        i += 1;
    }
    proof {
        assert(source.take(i as int) =~= source);
    }
    Ok(pushed)
}

/// What one pass of synchronization did.
#[derive(Debug)]
pub struct SyncReport {
    /// The transactions that were pulled and applied, in order.
    pub pulled: Vec<Uuid>,
    /// The identifiers under which local transactions were pushed, in order.
    pub pushed: Vec<Uuid>,
}

/// The identifiers of a sequence of transactions, in order.
pub open spec fn tx_ids(txs: Seq<TxView>) -> Seq<Uuid> {
    Seq::new(txs.len(), |i: int| txs[i].tx)
}

/// Between a dependable log and a dependable store a pass succeeds for
/// certain where the log knows the local head and stores every chunk of what
/// follows it, each transaction to pull holds exactly one instant, two
/// identifiers remain for each fact to pull, every local transaction to push
/// has an identifier, and the log allows their pushes one after the other
/// from its head.
pub open spec fn sync_is_owed(
    remote: LogState,
    capacity: nat,
    local_head: Uuid,
    made: Seq<LocalTxView>,
    remaining: nat,
) -> bool {
    &&& remote.knows(local_head)
    &&& remote.complete_after(local_head)
    &&& well_marked(remote.hydrated_after(local_head))
    &&& remaining >= 2 * total_parts(remote.hydrated_after(local_head))
    &&& all_named(made)
    &&& pushes_admitted(remote, capacity, remote.head, made)
}

/// One pass of synchronization.
///
/// Pull: the transactions that follow the local head are fetched from the
/// remote log. Apply: they are applied to the local store in order, and the
/// local head follows them. Collect: the store names the transactions made
/// locally since the remote head. Push: those are pushed in order, the
/// first as the child of the remote head, and the remote head follows them.
/// The phases run one after the other and the first failure ends the pass:
/// after a failure in Apply nothing is pushed.
pub fn sync<R: GlobalTransactionLog, S: LocalStore, A: IdAllocator>(
    remote: &mut R,
    store: &mut S,
    ids: &mut A,
) -> (r: Result<SyncReport, TolstoyError>)
    requires
        old(remote).inv(),
    ensures
        final(remote).inv(),
        old(remote)@.extends_to(final(remote)@),
        final(remote)@.head == old(remote)@.head || final(remote)@.has_transaction(
            final(remote)@.head,
        ),
        old(ids).allocated().subset_of(final(ids).allocated()),
        !old(remote)@.knows(old(store)@.head) ==> r is Err && final(store)@ == old(store)@
            && final(remote)@ == old(remote)@,
        old(remote)@.knows(old(store)@.head) ==> applied_through(
            old(store)@,
            final(store)@,
            old(remote)@.hydrated_after(old(store)@.head),
            final(store)@.applied.len() - old(store)@.applied.len(),
        ),
        r matches Ok(report) ==> {
            let pulled = old(remote)@.hydrated_after(old(store)@.head);
            &&& old(remote)@.knows(old(store)@.head)
            &&& report.pulled@ == tx_ids(pulled)
            &&& final(store)@.applied.len() == old(store)@.applied.len() + pulled.len()
            &&& final(store)@.head == if pulled.len() == 0 {
                old(store)@.head
            } else {
                pulled.last().tx
            }
            &&& report.pushed.len() == final(store).made_since(old(remote)@.head).len()
            &&& final(remote)@ == after_pushes(
                old(remote)@,
                old(remote)@.head,
                final(store).made_since(old(remote)@.head),
                report.pushed@,
            )
        },
        r is Err ==> (final(remote)@ == old(remote)@ && final(remote).head_writes() == old(remote).head_writes()) || pushes_left_off(
            old(remote)@,
            final(remote)@,
            old(remote).head_writes(),
            final(remote).head_writes(),
            old(remote)@.head,
            final(store).made_since(old(remote)@.head),
        ),
        r matches Ok(report) ==> final(remote).head_writes() == old(remote).head_writes()
            + report.pushed@,
        final(store).head_moves() == old(store).head_moves() + tx_ids(
            old(remote)@.hydrated_after(old(store)@.head),
        ).take(final(store)@.applied.len() - old(store)@.applied.len()),
        final(remote).dependable() == old(remote).dependable(),
        final(remote).capacity() == old(remote).capacity(),
        final(store).dependable() == old(store).dependable(),
        sync_is_owed(
            old(remote)@,
            old(remote).capacity(),
            old(store)@.head,
            old(store).made_since(old(remote)@.head),
            old(ids).remaining(),
        ) && old(remote).dependable() && old(store).dependable() ==> r is Ok,
{
    let local_head = store.current_local_head();
    let txs = match remote.transactions_after(&local_head) {
        Ok(txs) => txs,
        Err(e) => {
            return Err(e);
        },
    };
    let ghost pulled = txs_view(txs@);
    let mut pulled_ids: Vec<Uuid> = Vec::new();
    let mut i: usize = 0;
    while i < txs.len()
        invariant
            i <= txs.len(),
            pulled == txs_view(txs@),
            pulled_ids.len() == i,
            forall|k: int| 0 <= k < i ==> pulled_ids[k] == pulled[k].tx,
        decreases txs.len() - i,
    {
        pulled_ids.push(txs[i].tx);
        assert(pulled[i as int] == txs[i as int]@);
        i += 1;
    }
    assert(pulled_ids@ =~= tx_ids(pulled));
    match apply_transactions(store, ids, &txs) {
        Ok(()) => {},
        Err(e) => {
            return Err(e);
        },
    }
    let remote_head = match remote.head() {
        Ok(head) => head,
        Err(e) => {
            return Err(e);
        },
    };
    let local = store.local_transactions_since(&remote_head);
    let pushed = match push_transactions(remote, &remote_head, &local) {
        Ok(pushed) => pushed,
        Err(e) => {
            return Err(e);
        },
    };
    Ok(SyncReport { pulled: pulled_ids, pushed })
}

/// Head monotonicity: a store to which pulled transactions were applied
/// has its head where it was or at one of the pulled transactions; where all
/// of them were applied, it is at the last of them, and where none was
/// pulled, it is where it was.
pub proof fn lemma_head_follows_pulled(
    before: StoreState,
    after: StoreState,
    txs: Seq<TxView>,
    n: int,
)
    requires
        applied_through(before, after, txs, n),
    ensures
        after.head == before.head || exists|k: int|
            0 <= k < txs.len() && (#[trigger] txs[k]).tx == after.head,
        n == txs.len() && txs.len() > 0 ==> after.head == txs.last().tx,
        txs.len() == 0 ==> after.head == before.head,
{
    if n > 0 {
        assert(txs[n - 1].tx == after.head);
    }
}

/// Head monotonicity, call by call: where the heads that were set are the
/// earlier ones and then the first `n` of `named`, in order, every head that
/// was newly set is one of `named`. So a pass moves the local head only to
/// transactions that it pulled and writes the remote head only to
/// transactions that it pushed.
pub proof fn lemma_new_heads_are_named(
    before: Seq<Uuid>,
    after: Seq<Uuid>,
    named: Seq<Uuid>,
    n: int,
)
    requires
        0 <= n <= named.len(),
        after == before + named.take(n),
    ensures
        after.len() == before.len() + n,
        forall|i: int| 0 <= i < before.len() ==> after[i] == before[i],
        forall|i: int| before.len() <= i < after.len() ==> named.contains(#[trigger] after[i]),
{
    assert forall|i: int| before.len() <= i < after.len() implies named.contains(
        #[trigger] after[i],
    ) by {
        assert(after[i] == named[i - before.len()]);
    }
}

} // verus!
