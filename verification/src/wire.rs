//! The wire format: how heads, transaction headers and facts are written
//! as JSON and read back.

use vstd::prelude::*;
use vstd::string::StringExecFns;
use crate::errors::TolstoyError;
use crate::facts::{Identifier, TxPart, TxPartView, TypedValue, TypedValueView};
use crate::ids::{uuid_parsed, Uuid};
use crate::json::{
    json_bool_at, json_bool_found, json_integer_at, json_integer_found, json_length_at,
    json_length_found, json_quote, json_quoted, json_text_at, json_text_found,
};
use crate::log::{TxHeader, TxHeaderView};
use crate::text::{decimal, decimal_text, index_text, joined};

verus! {

/// An identifier in double quotes.
pub open spec fn quoted_uuid(id: Uuid) -> Seq<char> {
    "\""@ + id.text() + "\""@
}

/// The body that carries a head: `{"head":"<uuid>"}`.
pub open spec fn head_body(head: Uuid) -> Seq<char> {
    "{\"head\":"@ + quoted_uuid(head) + "}"@
}

/// The identifiers in double quotes, in order.
pub open spec fn quoted_uuids(ids: Seq<Uuid>) -> Seq<Seq<char>> {
    Seq::new(ids.len(), |i: int| quoted_uuid(ids[i]))
}

/// The body that carries a transaction header:
/// `{"parent":"<uuid>","chunks":["<uuid>",...]}`.
pub open spec fn transaction_body(parent: Uuid, chunks: Seq<Uuid>) -> Seq<char> {
    "{\"parent\":"@ + quoted_uuid(parent) + ",\"chunks\":["@ + joined(quoted_uuids(chunks), ","@)
        + "]}"@
}

/// How an identifier is written: `{"Stable":<n>}` or `{"Temp":<n>}`.
pub open spec fn identifier_body(id: Identifier) -> Seq<char> {
    match id {
        Identifier::Stable(n) => "{\"Stable\":"@ + decimal(n as int) + "}"@,
        Identifier::Temp(n) => "{\"Temp\":"@ + decimal(n as int) + "}"@,
    }
}

/// How a truth value is written.
pub open spec fn bool_body(b: bool) -> Seq<char> {
    if b {
        "true"@
    } else {
        "false"@
    }
}

/// How a value is written: an object with one member, named after the kind
/// of the value. A text is written as `quoted` gives it.
pub open spec fn value_body_with(v: TypedValueView, quoted: Seq<char>) -> Seq<char> {
    match v {
        TypedValueView::Ref(id) => "{\"Ref\":"@ + identifier_body(id) + "}"@,
        TypedValueView::Boolean(b) => "{\"Boolean\":"@ + bool_body(b) + "}"@,
        TypedValueView::Long(n) => "{\"Long\":"@ + decimal(n as int) + "}"@,
        TypedValueView::Instant(n) => "{\"Instant\":"@ + decimal(n as int) + "}"@,
        TypedValueView::Double(n) => "{\"Double\":"@ + decimal(n as int) + "}"@,
        TypedValueView::String(_) => "{\"String\":"@ + quoted + "}"@,
        TypedValueView::Keyword(_) => "{\"Keyword\":"@ + quoted + "}"@,
        TypedValueView::Uuid(u) => "{\"Uuid\":"@ + quoted_uuid(u) + "}"@,
    }
}

/// The text that a value holds; the empty text for a value that holds
/// none.
pub open spec fn text_held(v: TypedValueView) -> Seq<char> {
    match v {
        TypedValueView::String(s) => s,
        TypedValueView::Keyword(k) => k,
        _ => Seq::empty(),
    }
}

/// How a value is written: an object with one member, named after the kind
/// of the value. A text is written as a JSON string literal.
pub open spec fn value_body(v: TypedValueView) -> Seq<char> {
    value_body_with(v, json_quoted(text_held(v)))
}

/// The payload of the chunk that holds a fact, with the text of its value
/// written as `quoted` gives it.
pub open spec fn part_body_with(part: TxPartView, quoted: Seq<char>) -> Seq<char> {
    "{\"e\":"@ + identifier_body(part.e) + ",\"a\":"@ + decimal(part.a as int) + ",\"v\":"@
        + value_body_with(part.v, quoted) + ",\"added\":"@ + bool_body(part.added) + "}"@
}

/// The payload of the chunk that holds a fact:
/// `{"e":<identifier>,"a":<n>,"v":<value>,"added":<bool>}`.
pub open spec fn part_body(part: TxPartView) -> Seq<char> {
    part_body_with(part, json_quoted(text_held(part.v)))
}

fn push_quoted_uuid(out: &mut String, id: &Uuid)
    ensures
        final(out)@ == old(out)@ + quoted_uuid(*id),
{
    out.append("\"");
    out.append(id.to_text().as_str());
    out.append("\"");
    assert(out@ =~= old(out)@ + quoted_uuid(*id));
}

/// Writes the body that carries a head.
pub fn encode_head(head: &Uuid) -> (body: String)
    ensures
        body@ == head_body(*head),
{
    let mut out = String::from_str("{\"head\":");
    push_quoted_uuid(&mut out, head);
    out.append("}");
    out
}

/// Writes the body that carries a transaction header.
pub fn encode_transaction(parent: &Uuid, chunks: &Vec<Uuid>) -> (body: String)
    ensures
        body@ == transaction_body(*parent, chunks@),
{
    let mut out = String::from_str("{\"parent\":");
    push_quoted_uuid(&mut out, parent);
    out.append(",\"chunks\":[");
    let ghost opening = out@;
    let mut i: usize = 0;
    while i < chunks.len()
        invariant
            i <= chunks.len(),
            out@ == opening + joined(quoted_uuids(chunks@).take(i as int), ","@),
        decreases chunks.len() - i,
    {
        if i > 0 {
            out.append(",");
        }
        push_quoted_uuid(&mut out, &chunks[i]);
        proof {
            let now = quoted_uuids(chunks@).take(i + 1);
            assert(now.drop_last() =~= quoted_uuids(chunks@).take(i as int));
            assert(now.last() == quoted_uuid(chunks@[i as int]));
            let before = joined(quoted_uuids(chunks@).take(i as int), ","@);
            if i == 0 {
                assert(out@ =~= opening + joined(now, ","@));
            } else {
                assert(out@ =~= opening + (before + ","@ + now.last()));
            }
        }
        i += 1;
    }
    assert(quoted_uuids(chunks@).take(chunks.len() as int) =~= quoted_uuids(chunks@));
    out.append("]}");
    out
}

fn push_identifier(out: &mut String, id: Identifier)
    ensures
        final(out)@ == old(out)@ + identifier_body(id),
{
    match id {
        Identifier::Stable(n) => {
            out.append("{\"Stable\":");
            out.append(decimal_text(n).as_str());
        },
        Identifier::Temp(n) => {
            out.append("{\"Temp\":");
            out.append(decimal_text(n).as_str());
        },
    }
    out.append("}");
    assert(out@ =~= old(out)@ + identifier_body(id));
}

fn push_bool(out: &mut String, b: bool)
    ensures
        final(out)@ == old(out)@ + bool_body(b),
{
    if b {
        out.append("true");
    } else {
        out.append("false");
    }
}

fn push_value(out: &mut String, v: &TypedValue, quoted: &str)
    ensures
        final(out)@ == old(out)@ + value_body_with(v@, quoted@),
{
    match v {
        TypedValue::Ref(id) => {
            out.append("{\"Ref\":");
            push_identifier(out, *id);
        },
        TypedValue::Boolean(b) => {
            out.append("{\"Boolean\":");
            push_bool(out, *b);
        },
        TypedValue::Long(n) => {
            out.append("{\"Long\":");
            out.append(decimal_text(*n).as_str());
        },
        TypedValue::Instant(n) => {
            out.append("{\"Instant\":");
            out.append(decimal_text(*n).as_str());
        },
        TypedValue::Double(n) => {
            out.append("{\"Double\":");
            out.append(decimal_text(*n).as_str());
        },
        TypedValue::String(s) => {
            out.append("{\"String\":");
            out.append(quoted);
        },
        TypedValue::Keyword(k) => {
            out.append("{\"Keyword\":");
            out.append(quoted);
        },
        TypedValue::Uuid(u) => {
            out.append("{\"Uuid\":");
            push_quoted_uuid(out, u);
        },
    }
    out.append("}");
    assert(out@ =~= old(out)@ + value_body_with(v@, quoted@));
}

/// Writes the payload of the chunk that holds a fact, with the text of its
/// value written as `quoted` gives it.
pub fn encode_part_with(part: &TxPart, quoted: &str) -> (body: String)
    ensures
        body@ == part_body_with(part@, quoted@),
{
    let mut out = String::from_str("{\"e\":");
    push_identifier(&mut out, part.e);
    out.append(",\"a\":");
    out.append(decimal_text(part.a).as_str());
    out.append(",\"v\":");
    push_value(&mut out, &part.v, quoted);
    out.append(",\"added\":");
    push_bool(&mut out, part.added);
    out.append("}");
    out
}

/// Writes the payload of the chunk that holds a fact.
pub fn encode_part(part: &TxPart) -> (body: String)
    ensures
        body@ == part_body(part@),
{
    let quoted = match &part.v {
        TypedValue::String(s) => json_quote(s.as_str()),
        TypedValue::Keyword(k) => json_quote(k.as_str()),
        _ => json_quote(""),
    };
    encode_part_with(part, quoted.as_str())
}

/// The identifier whose text stands at `pointer` in `body`.
pub open spec fn uuid_found(body: Seq<char>, pointer: Seq<char>) -> Option<Uuid> {
    match json_text_found(body, pointer) {
        Some(text) => match uuid_parsed(text) {
            Some(value) => Some(Uuid { value }),
            None => None,
        },
        None => None,
    }
}

/// The pointer to the item at `index` of the list at `pointer`.
pub open spec fn item_pointer(pointer: Seq<char>, index: int) -> Seq<char> {
    pointer + "/"@ + decimal(index)
}

/// The identifiers whose texts stand in the list at `pointer` in `body`:
/// nothing where there is no list or one of its items is no identifier.
pub open spec fn uuids_found(body: Seq<char>, pointer: Seq<char>) -> Option<Seq<Uuid>> {
    match json_length_found(body, pointer) {
        Some(n) => if forall|i: int|
            0 <= i < n ==> (#[trigger] uuid_found(body, item_pointer(pointer, i))) is Some {
            Some(Seq::new(n as nat, |i: int| uuid_found(body, item_pointer(pointer, i))->0))
        } else {
            None
        },
        None => None,
    }
}

/// The transaction identifiers that a body lists: it must carry a number
/// under `limit`, an identifier under `from` and the list under
/// `transactions`.
pub open spec fn transaction_list_found(body: Seq<char>) -> Option<Seq<Uuid>> {
    if json_integer_found(body, "/limit"@) is Some && uuid_found(body, "/from"@) is Some {
        uuids_found(body, "/transactions"@)
    } else {
        None
    }
}

/// The transaction header that a body carries under `parent`, `chunks`, `id`
/// and `seq`.
pub open spec fn header_found(body: Seq<char>) -> Option<TxHeaderView> {
    match (
        uuid_found(body, "/parent"@),
        uuids_found(body, "/chunks"@),
        uuid_found(body, "/id"@),
        json_integer_found(body, "/seq"@),
    ) {
        (Some(parent), Some(chunks), Some(id), Some(seq)) => Some(
            TxHeaderView { id, parent, chunks, seq },
        ),
        _ => None,
    }
}

/// The identifier written at `pointer` in `body`.
pub open spec fn identifier_found(body: Seq<char>, pointer: Seq<char>) -> Option<Identifier> {
    match json_integer_found(body, pointer + "/Stable"@) {
        Some(n) => Some(Identifier::Stable(n)),
        None => match json_integer_found(body, pointer + "/Temp"@) {
            Some(n) => Some(Identifier::Temp(n)),
            None => None,
        },
    }
}

/// The value written at `pointer` in `body`. The kinds are tried in the
/// order in which `TypedValue` lists them, and the first that is found
/// counts.
pub open spec fn value_found(body: Seq<char>, pointer: Seq<char>) -> Option<TypedValueView> {
    if let Some(id) = identifier_found(body, pointer + "/Ref"@) {
        Some(TypedValueView::Ref(id))
    } else if let Some(b) = json_bool_found(body, pointer + "/Boolean"@) {
        Some(TypedValueView::Boolean(b))
    } else if let Some(n) = json_integer_found(body, pointer + "/Long"@) {
        Some(TypedValueView::Long(n))
    } else if let Some(n) = json_integer_found(body, pointer + "/Instant"@) {
        Some(TypedValueView::Instant(n))
    } else if let Some(n) = json_integer_found(body, pointer + "/Double"@) {
        Some(TypedValueView::Double(n))
    } else if let Some(s) = json_text_found(body, pointer + "/String"@) {
        Some(TypedValueView::String(s))
    } else if let Some(k) = json_text_found(body, pointer + "/Keyword"@) {
        Some(TypedValueView::Keyword(k))
    } else if let Some(u) = uuid_found(body, pointer + "/Uuid"@) {
        Some(TypedValueView::Uuid(u))
    } else {
        None
    }
}

/// The fact that a chunk payload carries under `e`, `a`, `v` and `added`.
pub open spec fn part_found(body: Seq<char>) -> Option<TxPartView> {
    match (
        identifier_found(body, "/e"@),
        json_integer_found(body, "/a"@),
        value_found(body, "/v"@),
        json_bool_found(body, "/added"@),
    ) {
        (Some(e), Some(a), Some(v), Some(added)) => Some(TxPartView { e, a, v, added }),
        _ => None,
    }
}

fn pointer_to(pointer: &str, member: &str) -> (r: String)
    ensures
        r@ == pointer@ + member@,
{
    String::from_str(pointer).concat(member)
}

/// The identifier that a text was read as, where there was a text and it
/// was read as one.
pub fn uuid_of(parsed: Option<Result<Uuid, TolstoyError>>) -> (r: Option<Uuid>)
    ensures
        r == match parsed {
            Some(Ok(id)) => Some(id),
            _ => None,
        },
{
    match parsed {
        Some(Ok(id)) => Some(id),
        _ => None,
    }
}

/// Reads the identifier whose text stands at `pointer`.
pub fn uuid_at(body: &str, pointer: &str) -> (r: Option<Uuid>)
    ensures
        r == uuid_found(body@, pointer@),
{
    match json_text_at(body, pointer) {
        Some(text) => uuid_of(Some(Uuid::parse_str(text.as_str()))),
        None => uuid_of(None),
    }
}

/// Reads the identifiers whose texts stand in the list at `pointer`.
pub fn uuids_at(body: &str, pointer: &str) -> (r: Option<Vec<Uuid>>)
    ensures
        match r {
            Some(ids) => uuids_found(body@, pointer@) == Some(ids@),
            None => uuids_found(body@, pointer@) is None,
        },
{
    let n = match json_length_at(body, pointer) {
        Some(n) => n,
        None => {
            return None;
        },
    };
    let mut ids: Vec<Uuid> = Vec::new();
    let mut i: usize = 0;
    while i < n
        invariant
            i <= n,
            json_length_found(body@, pointer@) == Some(n),
            ids.len() == i,
            forall|k: int|
                0 <= k < i ==> (#[trigger] uuid_found(body@, item_pointer(pointer@, k))) == Some(
                    ids[k],
                ),
        decreases n - i,
    {
        let item = pointer_to(pointer, "/").concat(index_text(i).as_str());
        assert(item@ == item_pointer(pointer@, i as int));
        match uuid_at(body, item.as_str()) {
            Some(id) => {
                ids.push(id);
            },
            None => {
                return None;
            },
        }
        i += 1;
    }
    assert(ids@ =~= Seq::new(
        n as nat,
        |i: int| uuid_found(body@, item_pointer(pointer@, i))->0,
    ));
    Some(ids)
}

/// What was read from a response body, or, where nothing was, the
/// `BadRemoteResponse` that carries the body.
pub fn read_or_bad_response<T>(read: Option<T>, body: &str) -> (r: Result<T, TolstoyError>)
    ensures
        match read {
            Some(value) => r == Ok::<T, TolstoyError>(value),
            None => r matches Err(TolstoyError::BadRemoteResponse(b)) && b@ == body@,
        },
{
    match read {
        Some(value) => Ok(value),
        None => Err(TolstoyError::BadRemoteResponse(String::from_str(body))),
    }
}

/// The list of transactions that a body carries, where the body also
/// carries a limit and a watermark.
pub fn transaction_list_of(
    limit: Option<i64>,
    from: Option<Uuid>,
    transactions: Option<Vec<Uuid>>,
) -> (r: Option<Vec<Uuid>>)
    ensures
        r == if limit is Some && from is Some {
            transactions
        } else {
            None
        },
{
    if limit.is_some() && from.is_some() {
        transactions
    } else {
        None
    }
}

/// The header made of what was read under its four names; none where one
/// of them is missing.
pub fn header_of(
    parent: Option<Uuid>,
    chunks: Option<Vec<Uuid>>,
    id: Option<Uuid>,
    seq: Option<i64>,
) -> (r: Option<TxHeader>)
    ensures
        r == match (parent, chunks, id, seq) {
            (Some(parent), Some(chunks), Some(id), Some(seq)) => Some(
                TxHeader { id, parent, chunks, seq },
            ),
            _ => None,
        },
{
    match (parent, chunks, id, seq) {
        (Some(parent), Some(chunks), Some(id), Some(seq)) => Some(
            TxHeader { id, parent, chunks, seq },
        ),
        _ => None,
    }
}

/// The identifier made of what was read under `Stable` and under `Temp`;
/// the stable one where both were read.
pub fn identifier_of(stable: Option<i64>, temp: Option<i64>) -> (r: Option<Identifier>)
    ensures
        r == match (stable, temp) {
            (Some(n), _) => Some(Identifier::Stable(n)),
            (None, Some(n)) => Some(Identifier::Temp(n)),
            (None, None) => None,
        },
{
    match (stable, temp) {
        (Some(n), _) => Some(Identifier::Stable(n)),
        (None, Some(n)) => Some(Identifier::Temp(n)),
        (None, None) => None,
    }
}

/// The fact made of what was read under its four names; none where one of
/// them is missing.
pub fn part_of(
    e: Option<Identifier>,
    a: Option<i64>,
    v: Option<TypedValue>,
    added: Option<bool>,
) -> (r: Option<TxPart>)
    ensures
        r == match (e, a, v, added) {
            (Some(e), Some(a), Some(v), Some(added)) => Some(TxPart { e, a, v, added }),
            _ => None,
        },
{
    match (e, a, v, added) {
        (Some(e), Some(a), Some(v), Some(added)) => Some(TxPart { e, a, v, added }),
        _ => None,
    }
}

/// What was read from a chunk payload, or, where nothing was, the
/// `SerializationError` that carries the payload.
pub fn read_or_serialization_error(read: Option<TxPart>, body: &str) -> (r: Result<
    TxPart,
    TolstoyError,
>)
    ensures
        match read {
            Some(part) => r == Ok::<TxPart, TolstoyError>(part),
            None => r matches Err(TolstoyError::SerializationError(b)) && b@ == body@,
        },
{
    match read {
        Some(part) => Ok(part),
        None => Err(TolstoyError::SerializationError(String::from_str(body))),
    }
}

/// The head made of what was read under `head`: the identifier where the
/// text there was read as one, a `BadRemoteState` that carries the text
/// where it was not, and a `BadRemoteResponse` that carries the body where
/// there was no text.
pub fn head_of(read: Option<(String, Option<Uuid>)>, body: &str) -> (r: Result<Uuid, TolstoyError>)
    ensures
        match read {
            Some((_, Some(head))) => r == Ok::<Uuid, TolstoyError>(head),
            Some((text, None)) => r matches Err(TolstoyError::BadRemoteState(t)) && t == text,
            None => r matches Err(TolstoyError::BadRemoteResponse(b)) && b@ == body@,
        },
{
    match read {
        Some((_, Some(head))) => Ok(head),
        Some((text, None)) => Err(TolstoyError::BadRemoteState(text)),
        None => Err(TolstoyError::BadRemoteResponse(String::from_str(body))),
    }
}

/// What reading the head of a body comes to: the head, the text under
/// `head` that is no identifier, or nothing where the body carries no text
/// there.
pub enum HeadRead {
    Head(Uuid),
    Malformed(Seq<char>),
    Missing,
}

/// What reading the head of `body` comes to.
pub open spec fn head_read(body: Seq<char>) -> HeadRead {
    match json_text_found(body, "/head"@) {
        Some(text) => match uuid_parsed(text) {
            Some(value) => HeadRead::Head(Uuid { value }),
            None => HeadRead::Malformed(text),
        },
        None => HeadRead::Missing,
    }
}

/// Reads the head that a body carries. A head that is no identifier is a
/// `BadRemoteState` that carries its text; a body without a text under
/// `head` is a `BadRemoteResponse` that carries the body.
pub fn decode_head(body: &str) -> (r: Result<Uuid, TolstoyError>)
    ensures
        match head_read(body@) {
            HeadRead::Head(head) => r == Ok::<Uuid, TolstoyError>(head),
            HeadRead::Malformed(text) => r matches Err(TolstoyError::BadRemoteState(t)) && t@
                == text,
            HeadRead::Missing => r matches Err(TolstoyError::BadRemoteResponse(b)) && b@ == body@,
        },
{
    match json_text_at(body, "/head") {
        Some(text) => {
            let head = uuid_of(Some(Uuid::parse_str(text.as_str())));
            head_of(Some((text, head)), body)
        },
        None => head_of(None, body),
    }
}

/// Reads the transaction identifiers that a body lists. A body without
/// such a list is a `BadRemoteResponse` that carries the body.
pub fn decode_transaction_list(body: &str) -> (r: Result<Vec<Uuid>, TolstoyError>)
    ensures
        match transaction_list_found(body@) {
            Some(ids) => r matches Ok(found) && found@ == ids,
            None => r matches Err(TolstoyError::BadRemoteResponse(b)) && b@ == body@,
        },
{
    let limit = json_integer_at(body, "/limit");
    let from = uuid_at(body, "/from");
    let transactions = uuids_at(body, "/transactions");
    read_or_bad_response(transaction_list_of(limit, from, transactions), body)
}

/// Reads the transaction header that a body carries. A body without one is
/// a `BadRemoteResponse` that carries the body.
pub fn decode_transaction_header(body: &str) -> (r: Result<TxHeader, TolstoyError>)
    ensures
        match header_found(body@) {
            Some(header) => r matches Ok(found) && found@ == header,
            None => r matches Err(TolstoyError::BadRemoteResponse(b)) && b@ == body@,
        },
{
    let parent = uuid_at(body, "/parent");
    let chunks = uuids_at(body, "/chunks");
    let id = uuid_at(body, "/id");
    let seq = json_integer_at(body, "/seq");
    read_or_bad_response(header_of(parent, chunks, id, seq), body)
}

/// Reads the identifier written at `pointer`.
pub fn identifier_at(body: &str, pointer: &str) -> (r: Option<Identifier>)
    ensures
        r == identifier_found(body@, pointer@),
{
    let stable = json_integer_at(body, pointer_to(pointer, "/Stable").as_str());
    let temp = json_integer_at(body, pointer_to(pointer, "/Temp").as_str());
    identifier_of(stable, temp)
}

/// What was read under the names of the kinds of values.
#[derive(Debug)]
pub struct ValueReads {
    pub reference: Option<Identifier>,
    pub boolean: Option<bool>,
    pub long: Option<i64>,
    pub instant: Option<i64>,
    pub double: Option<i64>,
    pub string: Option<String>,
    pub keyword: Option<String>,
    pub uuid: Option<Uuid>,
}

/// The value made of what was read under the names of the kinds: the kinds
/// are tried in the order in which `TypedValue` lists them, and the first
/// that was read counts.
pub fn value_of(reads: ValueReads) -> (r: Option<TypedValue>)
    ensures
        r == if let Some(id) = reads.reference {
            Some(TypedValue::Ref(id))
        } else if let Some(b) = reads.boolean {
            Some(TypedValue::Boolean(b))
        } else if let Some(n) = reads.long {
            Some(TypedValue::Long(n))
        } else if let Some(n) = reads.instant {
            Some(TypedValue::Instant(n))
        } else if let Some(n) = reads.double {
            Some(TypedValue::Double(n))
        } else if let Some(s) = reads.string {
            Some(TypedValue::String(s))
        } else if let Some(k) = reads.keyword {
            Some(TypedValue::Keyword(k))
        } else if let Some(u) = reads.uuid {
            Some(TypedValue::Uuid(u))
        } else {
            None
        },
{
    if let Some(id) = reads.reference {
        Some(TypedValue::Ref(id))
    } else if let Some(b) = reads.boolean {
        Some(TypedValue::Boolean(b))
    } else if let Some(n) = reads.long {
        Some(TypedValue::Long(n))
    } else if let Some(n) = reads.instant {
        Some(TypedValue::Instant(n))
    } else if let Some(n) = reads.double {
        Some(TypedValue::Double(n))
    } else if let Some(s) = reads.string {
        Some(TypedValue::String(s))
    } else if let Some(k) = reads.keyword {
        Some(TypedValue::Keyword(k))
    } else if let Some(u) = reads.uuid {
        Some(TypedValue::Uuid(u))
    } else {
        None
    }
}

/// Reads the value written at `pointer`.
pub fn value_at(body: &str, pointer: &str) -> (r: Option<TypedValue>)
    ensures
        match r {
            Some(v) => value_found(body@, pointer@) == Some(v@),
            None => value_found(body@, pointer@) is None,
        },
{
    value_of(
        ValueReads {
            reference: identifier_at(body, pointer_to(pointer, "/Ref").as_str()),
            boolean: json_bool_at(body, pointer_to(pointer, "/Boolean").as_str()),
            long: json_integer_at(body, pointer_to(pointer, "/Long").as_str()),
            instant: json_integer_at(body, pointer_to(pointer, "/Instant").as_str()),
            double: json_integer_at(body, pointer_to(pointer, "/Double").as_str()),
            string: json_text_at(body, pointer_to(pointer, "/String").as_str()),
            keyword: json_text_at(body, pointer_to(pointer, "/Keyword").as_str()),
            uuid: uuid_at(body, pointer_to(pointer, "/Uuid").as_str()),
        },
    )
}

/// Reads the fact that a chunk payload carries. A payload without one is a
/// `SerializationError` that carries the payload.
pub fn decode_part(body: &str) -> (r: Result<TxPart, TolstoyError>)
    ensures
        match part_found(body@) {
            Some(part) => r matches Ok(found) && found@ == part,
            None => r matches Err(TolstoyError::SerializationError(b)) && b@ == body@,
        },
{
    let e = identifier_at(body, "/e");
    let a = json_integer_at(body, "/a");
    let v = value_at(body, "/v");
    let added = json_bool_at(body, "/added");
    read_or_serialization_error(part_of(e, a, v, added), body)
}

} // verus!
