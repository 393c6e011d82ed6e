//! Facts: the atomic units of change that transactions are made of.

use vstd::prelude::*;
use crate::ids::Uuid;

verus! {

/// The attribute under which a transaction records its wall-clock instant.
pub const DB_TX_INSTANT: i64 = 3;

/// The name of an entity inside a fact.
///
/// A stable identifier is durable and means the same entity everywhere. A
/// temporary identifier is a placeholder that is only meaningful within the
/// transaction that mentions it.
#[derive(Clone, Copy, Debug, PartialEq, Eq, Structural, Hash)]
pub enum Identifier {
    Stable(i64),
    Temp(i64),
}

/// The value that a fact asserts or retracts.
///
/// A double is held by the bits of its IEEE 754 representation, read as a
/// signed integer, an instant
/// by its microseconds since the epoch.
#[derive(Debug)]
pub enum TypedValue {
    Ref(Identifier),
    Boolean(bool),
    Long(i64),
    Instant(i64),
    Double(i64),
    String(String),
    Keyword(String),
    Uuid(Uuid),
}

/// What a `TypedValue` holds, as mathematics.
pub enum TypedValueView {
    Ref(Identifier),
    Boolean(bool),
    Long(i64),
    Instant(i64),
    Double(i64),
    String(Seq<char>),
    Keyword(Seq<char>),
    Uuid(Uuid),
}

impl View for TypedValue {
    type V = TypedValueView;

    open spec fn view(&self) -> TypedValueView {
        match *self {
            TypedValue::Ref(id) => TypedValueView::Ref(id),
            TypedValue::Boolean(b) => TypedValueView::Boolean(b),
            TypedValue::Long(n) => TypedValueView::Long(n),
            TypedValue::Instant(t) => TypedValueView::Instant(t),
            TypedValue::Double(bits) => TypedValueView::Double(bits),
            TypedValue::String(s) => TypedValueView::String(s@),
            TypedValue::Keyword(k) => TypedValueView::Keyword(k@),
            TypedValue::Uuid(u) => TypedValueView::Uuid(u),
        }
    }
}

impl Clone for TypedValue {
    fn clone(&self) -> (r: TypedValue)
        ensures
            r@ == self@,
    {
        match self {
            TypedValue::Ref(id) => TypedValue::Ref(*id),
            TypedValue::Boolean(b) => TypedValue::Boolean(*b),
            TypedValue::Long(n) => TypedValue::Long(*n),
            TypedValue::Instant(t) => TypedValue::Instant(*t),
            TypedValue::Double(bits) => TypedValue::Double(*bits),
            TypedValue::String(s) => TypedValue::String(s.clone()),
            TypedValue::Keyword(k) => TypedValue::Keyword(k.clone()),
            TypedValue::Uuid(u) => TypedValue::Uuid(*u),
        }
    }
}

impl TypedValue {
    /// Whether two values hold the same content.
    pub fn same_as(&self, other: &TypedValue) -> (b: bool)
        ensures
            b == (self@ == other@),
    {
        match (self, other) {
            (TypedValue::Ref(x), TypedValue::Ref(y)) => *x == *y,
            (TypedValue::Boolean(x), TypedValue::Boolean(y)) => *x == *y,
            (TypedValue::Long(x), TypedValue::Long(y)) => *x == *y,
            (TypedValue::Instant(x), TypedValue::Instant(y)) => *x == *y,
            (TypedValue::Double(x), TypedValue::Double(y)) => *x == *y,
            (TypedValue::String(x), TypedValue::String(y)) => *x == *y,
            (TypedValue::Keyword(x), TypedValue::Keyword(y)) => *x == *y,
            (TypedValue::Uuid(x), TypedValue::Uuid(y)) => *x == *y,
            _ => false,
        }
    }
}

/// One fact: an entity, an attribute, a value, and whether the fact is
/// asserted or retracted. A fact travels as the payload of one chunk.
#[derive(Debug)]
pub struct TxPart {
    pub e: Identifier,
    pub a: i64,
    pub v: TypedValue,
    pub added: bool,
}

/// What a `TxPart` holds, as mathematics.
pub struct TxPartView {
    pub e: Identifier,
    pub a: i64,
    pub v: TypedValueView,
    pub added: bool,
}

impl View for TxPart {
    type V = TxPartView;

    open spec fn view(&self) -> TxPartView {
        TxPartView { e: self.e, a: self.a, v: self.v@, added: self.added }
    }
}

impl Clone for TxPart {
    fn clone(&self) -> (r: TxPart)
        ensures
            r@ == self@,
    {
        TxPart { e: self.e, a: self.a, v: self.v.clone(), added: self.added }
    }
}

impl TxPartView {
    /// The identifier that the value refers to, where the value is a
    /// reference.
    pub open spec fn value_ref(self) -> Option<Identifier> {
        match self.v {
            TypedValueView::Ref(id) => Some(id),
            _ => None,
        }
    }

    /// No temporary identifier is left in the fact.
    pub open spec fn is_resolved(self) -> bool {
        &&& self.e is Stable
        &&& self.value_ref() matches Some(id) ==> id is Stable
    }

    /// The fact asserts the wall-clock instant of its transaction.
    pub open spec fn is_tx_instant(self) -> bool {
        self.a == DB_TX_INSTANT && self.added
    }
}

impl TxPart {
    /// Whether two facts hold the same content.
    pub fn same_as(&self, other: &TxPart) -> (b: bool)
        ensures
            b == (self@ == other@),
    {
        self.e == other.e && self.a == other.a && self.added == other.added && self.v.same_as(
            &other.v,
        )
    }

    /// Whether the fact asserts the wall-clock instant of its transaction.
    pub fn is_tx_instant(&self) -> (b: bool)
        ensures
            b == self@.is_tx_instant(),
    {
        self.a == DB_TX_INSTANT && self.added
    }
}

/// The views of a sequence of facts, in order.
pub open spec fn parts_view(parts: Seq<TxPart>) -> Seq<TxPartView> {
    Seq::new(parts.len(), |i: int| parts[i]@)
}

/// A copy of a list of facts.
pub fn clone_parts(parts: &Vec<TxPart>) -> (r: Vec<TxPart>)
    ensures
        parts_view(r@) == parts_view(parts@),
{
    let mut out: Vec<TxPart> = Vec::new();
    let mut i: usize = 0;
    while i < parts.len()
        invariant
            i <= parts.len(),
            out.len() == i,
            forall|k: int| 0 <= k < i ==> out[k]@ == parts[k]@,
        decreases parts.len() - i,
    {
        out.push(parts[i].clone());
        i += 1;
    }
    assert(parts_view(out@) =~= parts_view(parts@));
    out
}

/// A transaction as a log hands it out: its identifier, the transaction it
/// follows, and its facts in order.
#[derive(Debug)]
pub struct Tx {
    pub tx: Uuid,
    pub parent: Uuid,
    pub parts: Vec<TxPart>,
}

/// What a `Tx` holds, as mathematics.
pub struct TxView {
    pub tx: Uuid,
    pub parent: Uuid,
    pub parts: Seq<TxPartView>,
}

impl View for Tx {
    type V = TxView;

    open spec fn view(&self) -> TxView {
        TxView { tx: self.tx, parent: self.parent, parts: parts_view(self.parts@) }
    }
}

/// The views of a sequence of transactions, in order.
pub open spec fn txs_view(txs: Seq<Tx>) -> Seq<TxView> {
    Seq::new(txs.len(), |i: int| txs[i]@)
}

/// Each transaction follows the one before it, and the first follows `after`.
pub open spec fn causal_chain(after: Uuid, txs: Seq<TxView>) -> bool {
    forall|i: int|
        0 <= i < txs.len() ==> (#[trigger] txs[i]).parent == (if i == 0 {
            after
        } else {
            txs[i - 1].tx
        })
}

} // verus!
