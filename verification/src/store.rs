//! The local store as synchronization sees it, and a store held in memory.

use vstd::prelude::*;
use crate::errors::TolstoyError;
use crate::facts::{clone_parts, parts_view, TxPart, TxPartView};
use crate::ids::Uuid;

verus! {

/// A fact of a local transaction together with the chunk that holds it.
#[derive(Debug)]
pub struct LocalPart {
    pub chunk: Uuid,
    pub part: TxPart,
}

/// A transaction that was made locally and is not known to the remote log
/// yet. It may not have been given an identifier so far.
#[derive(Debug)]
pub struct LocalTx {
    pub uuid: Option<Uuid>,
    pub parts: Vec<LocalPart>,
}

/// What a `LocalTx` holds, as mathematics.
pub struct LocalTxView {
    pub uuid: Option<Uuid>,
    pub parts: Seq<(Uuid, TxPartView)>,
}

/// The chunk identifiers and contents of a sequence of local facts.
pub open spec fn local_parts_view(parts: Seq<LocalPart>) -> Seq<(Uuid, TxPartView)> {
    Seq::new(parts.len(), |i: int| (parts[i].chunk, parts[i].part@))
}

impl View for LocalTx {
    type V = LocalTxView;

    open spec fn view(&self) -> LocalTxView {
        LocalTxView { uuid: self.uuid, parts: local_parts_view(self.parts@) }
    }
}

/// The views of a sequence of local transactions, in order.
pub open spec fn local_txs_view(txs: Seq<LocalTx>) -> Seq<LocalTxView> {
    Seq::new(txs.len(), |i: int| txs[i]@)
}

impl Clone for LocalTx {
    fn clone(&self) -> (r: LocalTx)
        ensures
            r@ == self@,
    {
        let mut parts: Vec<LocalPart> = Vec::new();
        let mut i: usize = 0;
        while i < self.parts.len()
            invariant
                i <= self.parts.len(),
                parts.len() == i,
                forall|k: int|
                    0 <= k < i ==> parts[k].chunk == self.parts[k].chunk && parts[k].part@
                        == self.parts[k].part@,
            decreases self.parts.len() - i,
        {
            parts.push(LocalPart { chunk: self.parts[i].chunk, part: self.parts[i].part.clone() });
            i += 1;
        }
        assert(local_parts_view(parts@) =~= local_parts_view(self.parts@));
        LocalTx { uuid: self.uuid, parts }
    }
}

/// The model of a local store: its head and the transactions applied to it,
/// each as the facts that were applied.
pub struct StoreState {
    pub head: Uuid,
    pub applied: Seq<Seq<TxPartView>>,
}

/// What synchronization needs of the local store.
pub trait LocalStore {
    /// What the store holds. A store that gives no model of itself is
    /// taken to hold nothing.
    open spec fn view(&self) -> StoreState {
        StoreState { head: Uuid { value: 0 }, applied: Seq::empty() }
    }

    /// The local transactions made since the transaction `uuid`, oldest
    /// first. A store that gives no model of itself is taken to have none.
    open spec fn made_since(&self, uuid: Uuid) -> Seq<LocalTxView> {
        Seq::empty()
    }

    /// The store is dependable: it applies every transaction that it is
    /// given and finishes with it. A store that does not say that it is
    /// dependable is taken not to be.
    open spec fn dependable(&self) -> bool {
        false
    }

    /// Every identifier that the head was moved to through this interface,
    /// oldest first. A store that keeps no record is taken to have none.
    open spec fn head_moves(&self) -> Seq<Uuid> {
        Seq::empty()
    }

    /// The head of the local store.
    fn current_local_head(&self) -> (head: Uuid)
        ensures
            head == self@.head,
    ;

    /// Moves the head of the local store.
    fn advance_local_head(&mut self, uuid: &Uuid)
        ensures
            final(self)@ == (StoreState { head: *uuid, ..old(self)@ }),
            forall|u: Uuid| final(self).made_since(u) == old(self).made_since(u),
            final(self).dependable() == old(self).dependable(),
            final(self).head_moves() == old(self).head_moves().push(*uuid),
    ;

    /// Applies the facts as one transaction: all of them or none. The answer
    /// `true` says that the transaction was applied and the store has
    /// finished with it.
    fn apply(&mut self, facts: &Vec<TxPart>) -> (r: Result<bool, TolstoyError>)
        requires
            forall|i: int| 0 <= i < facts.len() ==> (#[trigger] facts[i])@.is_resolved(),
        ensures
            r == Ok::<bool, TolstoyError>(true) ==> final(self)@ == (StoreState {
                applied: old(self)@.applied.push(parts_view(facts@)),
                ..old(self)@
            }),
            r != Ok::<bool, TolstoyError>(true) ==> final(self)@ == old(self)@,
            forall|u: Uuid| final(self).made_since(u) == old(self).made_since(u),
            final(self).dependable() == old(self).dependable(),
            old(self).dependable() ==> r == Ok::<bool, TolstoyError>(true),
            final(self).head_moves() == old(self).head_moves(),
    ;

    /// The local transactions made since the transaction `uuid`, oldest
    /// first.
    fn local_transactions_since(&self, uuid: &Uuid) -> (txs: Vec<LocalTx>)
        ensures
            local_txs_view(txs@) == self.made_since(*uuid),
    ;
}

/// A local store held in memory.
pub struct MemoryStore {
    head: Uuid,
    applied: Vec<Vec<TxPart>>,
    local: Vec<LocalTx>,
    moves: Vec<Uuid>,
}

impl MemoryStore {
    /// The local transactions that the store holds, oldest first.
    pub closed spec fn local(&self) -> Seq<LocalTxView> {
        local_txs_view(self.local@)
    }

    /// The transactions applied to the store, oldest first.
    pub closed spec fn applied(&self) -> Seq<Seq<TxPartView>> {
        Seq::new(self.applied@.len(), |i: int| parts_view(self.applied@[i]@))
    }

    /// The head of the store.
    pub closed spec fn head(&self) -> Uuid {
        self.head
    }

    /// Where the local transaction named `uuid` stands among the local
    /// transactions, or their number where none is named so.
    pub open spec fn local_position(local: Seq<LocalTxView>, uuid: Uuid) -> int
        decreases local.len(),
    {
        if local.len() == 0 {
            0
        } else if local[0].uuid == Some(uuid) {
            0
        } else {
            1 + Self::local_position(local.drop_first(), uuid)
        }
    }

    /// The local transactions after the first one named `uuid`; all of
    /// them where none is named so.
    pub open spec fn local_since(local: Seq<LocalTxView>, uuid: Uuid) -> Seq<LocalTxView> {
        let at = Self::local_position(local, uuid);
        if at < local.len() {
            local.skip(at + 1)
        } else {
            local
        }
    }

    /// An empty store with the nil identifier as its head.
    pub fn new() -> (store: MemoryStore)
        ensures
            store.head() == (Uuid { value: 0 }),
            store.applied() == Seq::<Seq<TxPartView>>::empty(),
            store.local() == Seq::<LocalTxView>::empty(),
            store.head_moves() == Seq::<Uuid>::empty(),
    {
        let store = MemoryStore {
            head: Uuid::nil(),
            applied: Vec::new(),
            local: Vec::new(),
            moves: Vec::new(),
        };
        assert(store.applied() =~= Seq::<Seq<TxPartView>>::empty());
        assert(store.local() =~= Seq::<LocalTxView>::empty());
        store
    }

    /// Adds a transaction that was made locally.
    pub fn add_local_transaction(&mut self, tx: LocalTx)
        ensures
            final(self).local() == old(self).local().push(tx@),
            final(self).head() == old(self).head(),
            final(self).applied() == old(self).applied(),
            final(self).head_moves() == old(self).head_moves(),
    {
        self.local.push(tx);
        assert(self.local() =~= old(self).local().push(tx@));
        assert(self.applied() =~= old(self).applied());
    }

    /// Every identifier that the head was moved to, oldest first.
    pub fn moves(&self) -> (moves: &Vec<Uuid>)
        ensures
            moves@ == self.head_moves(),
    {
        &self.moves
    }

    /// How many transactions were applied.
    pub fn applied_len(&self) -> (n: usize)
        ensures
            n == self.applied().len(),
    {
        self.applied.len()
    }

    /// The facts of the applied transaction at `index`.
    pub fn applied_at(&self, index: usize) -> (r: Option<Vec<TxPart>>)
        ensures
            match r {
                Some(facts) => index < self.applied().len() && parts_view(facts@)
                    == self.applied()[index as int],
                None => index >= self.applied().len(),
            },
    {
        if index < self.applied.len() {
            Some(clone_parts(&self.applied[index]))
        } else {
            None
        }
    }
}

impl LocalStore for MemoryStore {
    open spec fn view(&self) -> StoreState {
        StoreState { head: self.head(), applied: self.applied() }
    }

    open spec fn made_since(&self, uuid: Uuid) -> Seq<LocalTxView> {
        Self::local_since(self.local(), uuid)
    }

    /// A store in memory applies whatever it is given.
    open spec fn dependable(&self) -> bool {
        true
    }

    closed spec fn head_moves(&self) -> Seq<Uuid> {
        self.moves@
    }

    fn current_local_head(&self) -> (head: Uuid) {
        self.head
    }

    fn advance_local_head(&mut self, uuid: &Uuid) {
        self.head = *uuid;
        self.moves.push(*uuid);
        assert(self.applied() =~= old(self).applied());
    }

    /// Applying to a store in memory always succeeds and finishes.
    fn apply(&mut self, facts: &Vec<TxPart>) -> (r: Result<bool, TolstoyError>)
        ensures
            r == Ok::<bool, TolstoyError>(true),
    {
        self.applied.push(clone_parts(facts));
        assert(self.applied() =~= old(self).applied().push(parts_view(facts@)));
        Ok(true)
    }

    fn local_transactions_since(&self, uuid: &Uuid) -> (txs: Vec<LocalTx>) {
        let mut at: usize = 0;
        assert(self.local().skip(0) =~= self.local());
        while at < self.local.len() && !Self::is_named(&self.local[at], uuid)
            invariant
                at <= self.local@.len(),
                Self::local_position(self.local(), *uuid) == at + Self::local_position(
                    self.local().skip(at as int),
                    *uuid,
                ),
            decreases self.local@.len() - at,
        {
            proof {
                let rest = self.local().skip(at as int);
                assert(rest[0] == self.local@[at as int]@);
                assert(rest.drop_first() =~= self.local().skip(at + 1));
            }
            at += 1;
        }
        proof {
            let rest = self.local().skip(at as int);
            if at < self.local@.len() {
                assert(rest[0] == self.local@[at as int]@);
            }
        }
        let start: usize = if at < self.local.len() {
            at + 1
        } else {
            0
        };
        let mut txs: Vec<LocalTx> = Vec::new();
        let mut i: usize = start;
        while i < self.local.len()
            invariant
                start <= i <= self.local@.len(),
                txs.len() == i - start,
                forall|k: int| 0 <= k < txs.len() ==> txs[k]@ == self.local@[start + k]@,
            decreases self.local@.len() - i,
        {
            txs.push(self.local[i].clone());
            i += 1;
        }
        assert(local_txs_view(txs@) =~= self.made_since(*uuid));
        txs
    }
}

impl MemoryStore {
    /// Whether the local transaction is named `uuid`.
    fn is_named(tx: &LocalTx, uuid: &Uuid) -> (b: bool)
        ensures
            b == (tx@.uuid == Some(*uuid)),
    {
        match tx.uuid {
            Some(u) => u == *uuid,
            None => false,
        }
    }
}

} // verus!
