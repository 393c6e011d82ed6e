//! Entities: how fields of a record map to attributes of the fact store,
//! and how changes to a record are described.

use std::collections::HashMap;
use vstd::prelude::*;
use vstd::string::StringExecFns;
use crate::facts::{Identifier, TypedValue, TypedValueView};
use crate::text::{join, joined, texts};

verus! {

/// A change to a field that holds at most one value.
#[derive(Clone, Debug, PartialEq)]
pub enum Patch<T> {
    /// The field stays as it is.
    NoChange,
    /// The field gets a new value.
    SetTo(T),
    /// The field loses its value.
    Unset,
    /// The field gets a new value, provided that it holds the expected
    /// one.
    SetWithEnsure { expected: T, new: T },
}

impl<T> Default for Patch<T> {
    fn default() -> (patch: Self)
        ensures
            patch is NoChange,
    {
        Patch::NoChange
    }
}

/// A change to a field that holds many values.
#[derive(Clone, Debug, PartialEq)]
pub struct ManyPatch<T> {
    /// The values to add.
    pub add: Vec<T>,
    /// The values to remove.
    pub remove: Vec<T>,
    /// Whether every value goes before any is added.
    pub clear: bool,
}

impl<T> Default for ManyPatch<T> {
    fn default() -> (patch: Self)
        ensures
            patch.add@ == Seq::<T>::empty(),
            patch.remove@ == Seq::<T>::empty(),
            !patch.clear,
    {
        ManyPatch { add: Vec::new(), remove: Vec::new(), clear: false }
    }
}

impl<T> ManyPatch<T> {
    /// The patch that changes nothing.
    pub fn new() -> (patch: Self)
        ensures
            patch.add@ == Seq::<T>::empty(),
            patch.remove@ == Seq::<T>::empty(),
            !patch.clear,
    {
        ManyPatch { add: Vec::new(), remove: Vec::new(), clear: false }
    }

    /// The same patch with `values` as the values to add.
    pub fn with_add(self, values: Vec<T>) -> (patch: Self)
        ensures
            patch.add == values,
            patch.remove == self.remove,
            patch.clear == self.clear,
    {
        ManyPatch { add: values, remove: self.remove, clear: self.clear }
    }

    /// The same patch with `values` as the values to remove.
    pub fn with_remove(self, values: Vec<T>) -> (patch: Self)
        ensures
            patch.add == self.add,
            patch.remove == values,
            patch.clear == self.clear,
    {
        ManyPatch { add: self.add, remove: values, clear: self.clear }
    }

    /// The same patch with `clear` as told.
    pub fn with_clear(self, clear: bool) -> (patch: Self)
        ensures
            patch.add == self.add,
            patch.remove == self.remove,
            patch.clear == clear,
    {
        ManyPatch { add: self.add, remove: self.remove, clear }
    }
}

/// The kind of value that an attribute holds.
#[derive(Clone, Copy, Debug, PartialEq, Eq, Structural)]
pub enum ValueType {
    Ref,
    Boolean,
    Instant,
    Long,
    Double,
    String,
    Keyword,
    Uuid,
}

/// The type of a field of an entity.
#[derive(Clone, Copy, Debug, PartialEq, Eq, Structural)]
pub enum FieldType {
    Ref,
    Boolean,
    Instant,
    Long,
    Double,
    String,
    Keyword,
    Uuid,
}

impl FieldType {
    /// The kind of value that an attribute of this type holds.
    pub open spec fn value_type(self) -> ValueType {
        match self {
            FieldType::Ref => ValueType::Ref,
            FieldType::Boolean => ValueType::Boolean,
            FieldType::Instant => ValueType::Instant,
            FieldType::Long => ValueType::Long,
            FieldType::Double => ValueType::Double,
            FieldType::String => ValueType::String,
            FieldType::Keyword => ValueType::Keyword,
            FieldType::Uuid => ValueType::Uuid,
        }
    }

    /// The kind of value that an attribute of this type holds.
    pub fn to_value_type(&self) -> (t: ValueType)
        ensures
            t == self.value_type(),
    {
        match self {
            FieldType::Ref => ValueType::Ref,
            FieldType::Boolean => ValueType::Boolean,
            FieldType::Instant => ValueType::Instant,
            FieldType::Long => ValueType::Long,
            FieldType::Double => ValueType::Double,
            FieldType::String => ValueType::String,
            FieldType::Keyword => ValueType::Keyword,
            FieldType::Uuid => ValueType::Uuid,
        }
    }

    /// The name of the type in a schema.
    pub open spec fn schema_name(self) -> Seq<char> {
        match self {
            FieldType::Ref => ":db.type/ref"@,
            FieldType::Boolean => ":db.type/boolean"@,
            FieldType::Instant => ":db.type/instant"@,
            FieldType::Long => ":db.type/long"@,
            FieldType::Double => ":db.type/double"@,
            FieldType::String => ":db.type/string"@,
            FieldType::Keyword => ":db.type/keyword"@,
            FieldType::Uuid => ":db.type/uuid"@,
        }
    }
}

/// How many values a field holds.
#[derive(Clone, Copy, Debug, PartialEq, Eq, Structural)]
pub enum Cardinality {
    One,
    Many,
}

/// Whether the values of a field are unique.
#[derive(Clone, Copy, Debug, PartialEq, Eq, Structural)]
pub enum Unique {
    NotUnique,
    Value,
    Identity,
}

/// The name of an attribute: a name, in a namespace or without one.
#[derive(Clone, Debug, PartialEq, Eq, Hash)]
pub struct Keyword {
    pub namespace: Option<String>,
    pub name: String,
}

impl Keyword {
    /// The keyword `:namespace/name`.
    pub fn namespaced(namespace: &str, name: &str) -> (k: Keyword)
        ensures
            k.namespace matches Some(ns) && ns@ == namespace@,
            k.name@ == name@,
    {
        Keyword { namespace: Some(String::from_str(namespace)), name: String::from_str(name) }
    }

    /// The text of the keyword: `:namespace/name`, or `:name` without a
    /// namespace.
    pub open spec fn text(&self) -> Seq<char> {
        match self.namespace {
            Some(ns) => ":"@ + ns@ + "/"@ + self.name@,
            None => ":"@ + self.name@,
        }
    }

    /// Writes the keyword.
    pub fn to_text(&self) -> (s: String)
        ensures
            s@ == self.text(),
    {
        let mut out = String::from_str(":");
        match &self.namespace {
            Some(ns) => {
                out.append(ns.as_str());
                out.append("/");
            },
            None => {},
        }
        out.append(self.name.as_str());
        assert(out@ =~= self.text());
        out
    }
}

/// What the schema says of one field of an entity.
#[derive(Clone, Debug)]
pub struct FieldDefinition {
    pub name: String,
    pub ident: Keyword,
    pub field_type: FieldType,
    pub cardinality: Cardinality,
    pub unique: Unique,
    pub indexed: bool,
    pub optional: bool,
}

/// The schema of an entity type.
#[derive(Clone, Debug)]
pub struct EntitySchema {
    pub namespace: String,
    pub fields: Vec<FieldDefinition>,
}

/// The attribute map that the schema holds for one field.
pub open spec fn field_edn(field: FieldDefinition) -> Seq<char> {
    "{:db/ident "@ + field.ident.text() + " :db/valueType "@ + field.field_type.schema_name()
        + " :db/cardinality "@ + (match field.cardinality {
        Cardinality::One => ":db.cardinality/one"@,
        Cardinality::Many => ":db.cardinality/many"@,
    }) + (match field.unique {
        Unique::Value => " :db/unique :db.unique/value"@,
        Unique::Identity => " :db/unique :db.unique/identity"@,
        Unique::NotUnique => Seq::<char>::empty(),
    }) + (if field.indexed {
        " :db/index true"@
    } else {
        Seq::<char>::empty()
    }) + "}"@
}

/// The attribute maps of the fields, in order.
pub open spec fn fields_edn(fields: Seq<FieldDefinition>) -> Seq<Seq<char>> {
    Seq::new(fields.len(), |i: int| field_edn(fields[i]))
}

impl FieldDefinition {
    /// Writes the attribute map of the field.
    pub fn to_edn(&self) -> (s: String)
        ensures
            s@ == field_edn(*self),
    {
        let mut out = String::from_str("{:db/ident ");
        out.append(self.ident.to_text().as_str());
        out.append(" :db/valueType ");
        match self.field_type {
            FieldType::Ref => out.append(":db.type/ref"),
            FieldType::Boolean => out.append(":db.type/boolean"),
            FieldType::Instant => out.append(":db.type/instant"),
            FieldType::Long => out.append(":db.type/long"),
            FieldType::Double => out.append(":db.type/double"),
            FieldType::String => out.append(":db.type/string"),
            FieldType::Keyword => out.append(":db.type/keyword"),
            FieldType::Uuid => out.append(":db.type/uuid"),
        }
        out.append(" :db/cardinality ");
        match self.cardinality {
            Cardinality::One => out.append(":db.cardinality/one"),
            Cardinality::Many => out.append(":db.cardinality/many"),
        }
        let ghost head = out@;
        match self.unique {
            Unique::Value => out.append(" :db/unique :db.unique/value"),
            Unique::Identity => out.append(" :db/unique :db.unique/identity"),
            Unique::NotUnique => {
                assert(out@ =~= head + Seq::<char>::empty());
            },
        }
        let ghost middle = out@;
        if self.indexed {
            out.append(" :db/index true");
        } else {
            assert(out@ =~= middle + Seq::<char>::empty());
        }
        out.append("}");
        out
    }
}

impl EntitySchema {
    /// The schema as text, to be transacted into the store: the attribute
    /// maps of the fields in a vector, one on each line.
    pub fn to_edn(&self) -> (s: String)
        ensures
            s@ == "["@ + joined(fields_edn(self.fields@), "\n "@) + "]"@,
    {
        let mut edn_parts: Vec<String> = Vec::new();
        let mut i: usize = 0;
        while i < self.fields.len()
            invariant
                i <= self.fields.len(),
                edn_parts.len() == i,
                forall|k: int| 0 <= k < i ==> edn_parts[k]@ == field_edn(self.fields[k]),
            decreases self.fields.len() - i,
        {
            edn_parts.push(self.fields[i].to_edn());
            i += 1;
        }
        assert(texts(edn_parts@) =~= fields_edn(self.fields@));
        let mut out = String::from_str("[");
        out.append(join(&edn_parts, "\n ").as_str());
        out.append("]");
        out
    }
}

/// What can go wrong when the store is asked.
#[derive(Debug)]
pub enum MentatError {
    /// The result of a query has another shape than the one asked for.
    UnexpectedResultsType(String),
    /// A record could not be read or written.
    EntityError(String),
    /// The store failed.
    StoreError(String),
}

/// A record that can be held in the store as an entity.
pub trait Entity: Sized {
    /// The schema of the entity type.
    fn schema() -> EntitySchema;

    /// The namespace of the attributes of the entity type.
    fn namespace() -> String;

    /// The values of the record, each under the attribute that holds it.
    fn to_values(&self) -> HashMap<Keyword, TypedValue>;

    /// The record that holds these values.
    fn from_values(values: HashMap<Keyword, TypedValue>) -> Result<Self, MentatError>;
}

/// What can go wrong when a record is read from or written to the store.
#[derive(Debug)]
pub enum MentatEntityError {
    MissingRequiredField(String),
    BackrefCardinalityViolation,
    MissingEntity(String),
    TypeMismatch(String),
    MissingAttributeInDatabase(Keyword),
}

/// The name of an entity in a change.
#[derive(Debug)]
pub enum EntityId {
    /// The identifier of the entity.
    Entid(i64),
    /// The entity that holds `value` under the unique attribute `attr`.
    LookupRef { attr: String, value: TypedValue },
    /// A placeholder that the transaction resolves to an identifier.
    Temp(i64),
}

/// What an `EntityId` holds, as mathematics.
pub enum EntityIdView {
    Entid(i64),
    LookupRef { attr: Seq<char>, value: TypedValueView },
    Temp(i64),
}

impl View for EntityId {
    type V = EntityIdView;

    open spec fn view(&self) -> EntityIdView {
        match *self {
            EntityId::Entid(id) => EntityIdView::Entid(id),
            EntityId::LookupRef { attr, value } => EntityIdView::LookupRef {
                attr: attr@,
                value: value@,
            },
            EntityId::Temp(id) => EntityIdView::Temp(id),
        }
    }
}

impl Clone for EntityId {
    fn clone(&self) -> (r: EntityId)
        ensures
            r@ == self@,
    {
        match self {
            EntityId::Entid(id) => EntityId::Entid(*id),
            EntityId::LookupRef { attr, value } => EntityId::LookupRef {
                attr: attr.clone(),
                value: value.clone(),
            },
            EntityId::Temp(id) => EntityId::Temp(*id),
        }
    }
}

impl From<i64> for EntityId {
    fn from(id: i64) -> (r: EntityId) {
        EntityId::Entid(id)
    }
}

impl vstd::std_specs::convert::FromSpecImpl<i64> for EntityId {
    open spec fn obeys_from_spec() -> bool {
        true
    }

    open spec fn from_spec(id: i64) -> EntityId {
        EntityId::Entid(id)
    }
}

impl EntityId {
    /// The value that refers to the entity: a reference to its identifier.
    /// Only an entity that is named by its identifier has one.
    pub fn to_ref(&self) -> (r: Option<TypedValue>)
        ensures
            match self@ {
                EntityIdView::Entid(id) => r matches Some(v) && v@ == TypedValueView::Ref(
                    Identifier::Stable(id),
                ),
                _ => r is None,
            },
    {
        match self {
            EntityId::Entid(id) => Some(TypedValue::Ref(Identifier::Stable(*id))),
            _ => None,
        }
    }
}

/// One change to the facts of an entity.
#[derive(Debug)]
pub enum TxOp {
    /// The entity holds the value under the attribute.
    Assert { e: EntityId, a: String, v: TypedValue },
    /// The entity does not hold the value under the attribute.
    Retract { e: EntityId, a: String, v: TypedValue },
    /// The entity holds nothing under the attribute.
    RetractAttr { e: EntityId, a: String },
    /// The change only goes ahead if the entity holds the value under
    /// the attribute.
    Ensure { e: EntityId, a: String, v: TypedValue },
}

/// What a `TxOp` holds, as mathematics.
pub enum TxOpView {
    Assert { e: EntityIdView, a: Seq<char>, v: TypedValueView },
    Retract { e: EntityIdView, a: Seq<char>, v: TypedValueView },
    RetractAttr { e: EntityIdView, a: Seq<char> },
    Ensure { e: EntityIdView, a: Seq<char>, v: TypedValueView },
}

impl View for TxOp {
    type V = TxOpView;

    open spec fn view(&self) -> TxOpView {
        match *self {
            TxOp::Assert { e, a, v } => TxOpView::Assert { e: e@, a: a@, v: v@ },
            TxOp::Retract { e, a, v } => TxOpView::Retract { e: e@, a: a@, v: v@ },
            TxOp::RetractAttr { e, a } => TxOpView::RetractAttr { e: e@, a: a@ },
            TxOp::Ensure { e, a, v } => TxOpView::Ensure { e: e@, a: a@, v: v@ },
        }
    }
}

/// The views of a sequence of changes, in order.
pub open spec fn ops_view(ops: Seq<TxOp>) -> Seq<TxOpView> {
    Seq::new(ops.len(), |i: int| ops[i]@)
}

/// The views of a sequence of values, in order.
pub open spec fn values_view(values: Seq<TypedValue>) -> Seq<TypedValueView> {
    Seq::new(values.len(), |i: int| values[i]@)
}

/// The changes that a patch of a single-valued field stands for.
pub open spec fn patch_ops(e: EntityIdView, a: Seq<char>, patch: Patch<TypedValue>) -> Seq<
    TxOpView,
> {
    match patch {
        Patch::NoChange => Seq::empty(),
        Patch::SetTo(v) => seq![TxOpView::Assert { e, a, v: v@ }],
        Patch::Unset => seq![TxOpView::RetractAttr { e, a }],
        Patch::SetWithEnsure { expected, new } => seq![
            TxOpView::Ensure { e, a, v: expected@ },
            TxOpView::Assert { e, a, v: new@ },
        ],
    }
}

/// Appends to `ops` the changes that a patch of a single-valued field
/// stands for: none for no change, an assertion for a new value, the
/// retraction of the attribute for no value, and for a guarded new value the
/// guard and then the assertion.
pub fn patch_to_tx(ops: &mut Vec<TxOp>, e: &EntityId, a: &str, patch: &Patch<TypedValue>)
    ensures
        ops_view(final(ops)@) == ops_view(old(ops)@) + patch_ops(e@, a@, *patch),
{
    let ghost before = ops_view(ops@);
    match patch {
        Patch::NoChange => {},
        Patch::SetTo(v) => {
            ops.push(TxOp::Assert { e: e.clone(), a: String::from_str(a), v: v.clone() });
        },
        Patch::Unset => {
            ops.push(TxOp::RetractAttr { e: e.clone(), a: String::from_str(a) });
        },
        Patch::SetWithEnsure { expected, new } => {
            ops.push(TxOp::Ensure { e: e.clone(), a: String::from_str(a), v: expected.clone() });
            ops.push(TxOp::Assert { e: e.clone(), a: String::from_str(a), v: new.clone() });
        },
    }
    assert(ops_view(ops@) =~= before + patch_ops(e@, a@, *patch));
}

/// The assertions of the values under the attribute, in order.
pub open spec fn assertions(e: EntityIdView, a: Seq<char>, values: Seq<TypedValueView>) -> Seq<
    TxOpView,
> {
    Seq::new(values.len(), |i: int| TxOpView::Assert { e, a, v: values[i] })
}

/// The retractions of the values under the attribute, in order.
pub open spec fn retractions(e: EntityIdView, a: Seq<char>, values: Seq<TypedValueView>) -> Seq<
    TxOpView,
> {
    Seq::new(values.len(), |i: int| TxOpView::Retract { e, a, v: values[i] })
}

/// The changes that a patch of a many-valued field stands for: the
/// retraction of the attribute where the patch clears, then an assertion
/// for each value to add, then a retraction for each value to remove.
pub open spec fn many_patch_ops(e: EntityIdView, a: Seq<char>, patch: ManyPatch<TypedValue>) -> Seq<
    TxOpView,
> {
    (if patch.clear {
        seq![TxOpView::RetractAttr { e, a }]
    } else {
        Seq::empty()
    }) + assertions(e, a, values_view(patch.add@)) + retractions(e, a, values_view(patch.remove@))
}

/// Appends to `ops` the changes that a patch of a many-valued field stands
/// for.
pub fn many_patch_to_tx(ops: &mut Vec<TxOp>, e: &EntityId, a: &str, patch: &ManyPatch<TypedValue>)
    ensures
        ops_view(final(ops)@) == ops_view(old(ops)@) + many_patch_ops(e@, a@, *patch),
{
    let ghost before = ops_view(ops@);
    let ghost cleared = if patch.clear {
        seq![TxOpView::RetractAttr { e: e@, a: a@ }]
    } else {
        Seq::empty()
    };
    if patch.clear {
        ops.push(TxOp::RetractAttr { e: e.clone(), a: String::from_str(a) });
    }
    assert(ops_view(ops@) =~= before + cleared);
    let ghost adds = assertions(e@, a@, values_view(patch.add@));
    let mut i: usize = 0;
    while i < patch.add.len()
        invariant
            i <= patch.add.len(),
            adds == assertions(e@, a@, values_view(patch.add@)),
            ops_view(ops@) =~= before + cleared + adds.take(i as int),
        decreases patch.add.len() - i,
    {
        let ghost so_far = ops_view(ops@);
        ops.push(TxOp::Assert { e: e.clone(), a: String::from_str(a), v: patch.add[i].clone() });
        proof {
            assert(adds[i as int] == TxOpView::Assert { e: e@, a: a@, v: patch.add@[i as int]@ });
            assert(ops_view(ops@) =~= so_far.push(adds[i as int]));
            assert(adds.take(i + 1) =~= adds.take(i as int).push(adds[i as int]));
        }
        i += 1;
    }
    assert(adds.take(patch.add.len() as int) =~= adds);
    let ghost removes = retractions(e@, a@, values_view(patch.remove@));
    let mut k: usize = 0;
    while k < patch.remove.len()
        invariant
            k <= patch.remove.len(),
            removes == retractions(e@, a@, values_view(patch.remove@)),
            ops_view(ops@) =~= before + cleared + adds + removes.take(k as int),
        decreases patch.remove.len() - k,
    {
        let ghost so_far = ops_view(ops@);
        ops.push(
            TxOp::Retract { e: e.clone(), a: String::from_str(a), v: patch.remove[k].clone() },
        );
        proof {
            assert(removes[k as int] == TxOpView::Retract {
                e: e@,
                a: a@,
                v: patch.remove@[k as int]@,
            });
            assert(ops_view(ops@) =~= so_far.push(removes[k as int]));
            assert(removes.take(k + 1) =~= removes.take(k as int).push(removes[k as int]));
        }
        k += 1;
    }
    assert(removes.take(patch.remove.len() as int) =~= removes);
    assert(before + cleared + adds + removes =~= before + (cleared + adds + removes));
}

/// What can go wrong when a row of a query result is read as a record.
#[derive(Debug)]
pub enum RelResultDeserializeError {
    /// The row could not be written in the intermediate form.
    SerializationError(String),
    /// The intermediate form could not be read as the record.
    DeserializationError(String),
}

impl RelResultDeserializeError {
    /// The message of the error.
    pub fn message(&self) -> (s: String)
        ensures
            s@ == match *self {
                RelResultDeserializeError::SerializationError(msg) => "Serialization error: "@
                    + msg@,
                RelResultDeserializeError::DeserializationError(msg) => "Deserialization error: "@
                    + msg@,
            },
    {
        match self {
            RelResultDeserializeError::SerializationError(msg) => String::from_str(
                "Serialization error: ",
            ).concat(msg.as_str()),
            RelResultDeserializeError::DeserializationError(msg) => String::from_str(
                "Deserialization error: ",
            ).concat(msg.as_str()),
        }
    }
}

} // verus!
