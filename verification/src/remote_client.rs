//! The remote log client: which requests the protocol makes and what their
//! responses mean. Sending a request and receiving its response is left to
//! the caller.

use vstd::prelude::*;
use vstd::string::StringExecFns;
use crate::errors::TolstoyError;
use crate::facts::{causal_chain, parts_view, txs_view, Tx, TxPart, TxPartView, TxView};
use crate::ids::Uuid;
use crate::log::{TxHeader, TxHeaderView};
use crate::wire::{
    decode_head, decode_part, decode_transaction_header, decode_transaction_list, encode_head,
    encode_part, encode_transaction, head_body, head_read, header_found, part_body, part_found,
    transaction_body, transaction_list_found, HeadRead,
};

verus! {

/// The status of a response that carries what was asked for.
pub const STATUS_OK: u16 = 200;

/// The status of a response to a write that stored something.
pub const STATUS_CREATED: u16 = 201;

/// The status of a response without content.
pub const STATUS_NO_CONTENT: u16 = 204;

/// The status of a response that says that what was asked for is unknown.
pub const STATUS_NOT_FOUND: u16 = 404;

/// The kind of a request.
#[derive(Clone, Copy, Debug, PartialEq, Eq, Structural)]
pub enum Method {
    Get,
    Put,
}

/// A request of the protocol: what to send, where, and which status
/// answers it successfully. A body is JSON and is sent with the content type
/// `application/json`.
#[derive(Debug)]
pub struct Request {
    pub method: Method,
    pub uri: String,
    pub body: Option<String>,
    pub expected: u16,
}

/// What a `Request` holds, as mathematics.
pub struct RequestView {
    pub method: Method,
    pub uri: Seq<char>,
    pub body: Option<Seq<char>>,
    pub expected: u16,
}

impl View for Request {
    type V = RequestView;

    open spec fn view(&self) -> RequestView {
        RequestView {
            method: self.method,
            uri: self.uri@,
            body: match self.body {
                Some(text) => Some(text@),
                None => None,
            },
            expected: self.expected,
        }
    }
}

/// A response as the transport hands it over: the status, the text of the
/// status line for diagnostics, and the body.
#[derive(Debug)]
pub struct Response {
    pub status: u16,
    pub reason: String,
    pub body: String,
}

/// The request that reads from `uri`.
pub open spec fn get_of(uri: Seq<char>) -> RequestView {
    RequestView { method: Method::Get, uri, body: None, expected: STATUS_OK }
}

/// The request that writes `body` to `uri` and expects `expected`.
pub open spec fn put_of(uri: Seq<char>, body: Seq<char>, expected: u16) -> RequestView {
    RequestView { method: Method::Put, uri, body: Some(body), expected }
}

/// A client of one namespace of a remote log. It holds where the log is and
/// which namespace it talks to, and nothing else.
#[derive(Debug)]
pub struct RemoteClient {
    base_uri: String,
    user_uuid: Uuid,
}

impl RemoteClient {
    /// The address of the log service.
    pub closed spec fn base(&self) -> Seq<char> {
        self.base_uri@
    }

    /// The namespace that the client talks to.
    pub closed spec fn user(&self) -> Uuid {
        self.user_uuid
    }

    /// The address of the namespace: `{base}/{namespace}`.
    pub open spec fn bound(&self) -> Seq<char> {
        self.base() + "/"@ + self.user().text()
    }

    /// The address of the head.
    pub open spec fn head_uri(&self) -> Seq<char> {
        self.bound() + "/head"@
    }

    /// The address of the list of the transactions after `from`.
    pub open spec fn transactions_uri(&self, from: Uuid) -> Seq<char> {
        self.bound() + "/transactions?from="@ + from.text()
    }

    /// The address of the header of a transaction.
    pub open spec fn transaction_uri(&self, tx: Uuid) -> Seq<char> {
        self.bound() + "/transactions/"@ + tx.text()
    }

    /// The address of a chunk.
    pub open spec fn chunk_uri(&self, chunk: Uuid) -> Seq<char> {
        self.bound() + "/chunks/"@ + chunk.text()
    }

    /// A client of the namespace `user_uuid` of the log at `base_uri`.
    pub fn new(base_uri: String, user_uuid: Uuid) -> (client: RemoteClient)
        ensures
            client.base() == base_uri@,
            client.user() == user_uuid,
    {
        RemoteClient { base_uri, user_uuid }
    }

    /// The address of the namespace.
    pub fn bound_base_uri(&self) -> (uri: String)
        ensures
            uri@ == self.bound(),
    {
        let mut uri = self.base_uri.clone();
        uri.append("/");
        uri.append(self.user_uuid.to_text().as_str());
        uri
    }

    fn address(&self, path: &str, id: &Uuid) -> (uri: String)
        ensures
            uri@ == self.bound() + path@ + id.text(),
    {
        let mut uri = self.bound_base_uri();
        uri.append(path);
        uri.append(id.to_text().as_str());
        uri
    }

    /// The request that reads the head.
    pub fn head_request(&self) -> (request: Request)
        ensures
            request@ == get_of(self.head_uri()),
    {
        let mut uri = self.bound_base_uri();
        uri.append("/head");
        Request { method: Method::Get, uri, body: None, expected: STATUS_OK }
    }

    /// The request that overwrites the head. It is answered without
    /// content.
    pub fn set_head_request(&self, uuid: &Uuid) -> (request: Request)
        ensures
            request@ == put_of(self.head_uri(), head_body(*uuid), STATUS_NO_CONTENT),
    {
        let mut uri = self.bound_base_uri();
        uri.append("/head");
        Request {
            method: Method::Put,
            uri,
            body: Some(encode_head(uuid)),
            expected: STATUS_NO_CONTENT,
        }
    }

    /// The request that lists the transactions after `parent_uuid`.
    pub fn transactions_request(&self, parent_uuid: &Uuid) -> (request: Request)
        ensures
            request@ == get_of(self.transactions_uri(*parent_uuid)),
    {
        let uri = self.address("/transactions?from=", parent_uuid);
        Request { method: Method::Get, uri, body: None, expected: STATUS_OK }
    }

    /// The request that reads the header of a transaction.
    pub fn transaction_request(&self, transaction_uuid: &Uuid) -> (request: Request)
        ensures
            request@ == get_of(self.transaction_uri(*transaction_uuid)),
    {
        let uri = self.address("/transactions/", transaction_uuid);
        Request { method: Method::Get, uri, body: None, expected: STATUS_OK }
    }

    /// The request that reads a chunk.
    pub fn chunk_request(&self, chunk_uuid: &Uuid) -> (request: Request)
        ensures
            request@ == get_of(self.chunk_uri(*chunk_uuid)),
    {
        let uri = self.address("/chunks/", chunk_uuid);
        Request { method: Method::Get, uri, body: None, expected: STATUS_OK }
    }

    /// The request that records a transaction header. The chunks that the
    /// header names have to be stored before it is sent.
    pub fn put_transaction_request(
        &self,
        transaction_uuid: &Uuid,
        parent_uuid: &Uuid,
        chunks: &Vec<Uuid>,
    ) -> (request: Request)
        ensures
            request@ == put_of(
                self.transaction_uri(*transaction_uuid),
                transaction_body(*parent_uuid, chunks@),
                STATUS_CREATED,
            ),
    {
        let uri = self.address("/transactions/", transaction_uuid);
        Request {
            method: Method::Put,
            uri,
            body: Some(encode_transaction(parent_uuid, chunks)),
            expected: STATUS_CREATED,
        }
    }

    /// The request that stores a fact as a chunk.
    pub fn put_chunk_request(&self, chunk_uuid: &Uuid, payload: &TxPart) -> (request: Request)
        ensures
            request@ == put_of(self.chunk_uri(*chunk_uuid), part_body(payload@), STATUS_CREATED),
    {
        let uri = self.address("/chunks/", chunk_uuid);
        Request {
            method: Method::Put,
            uri,
            body: Some(encode_part(payload)),
            expected: STATUS_CREATED,
        }
    }
}

/// What the response to a write comes to: success with the expected
/// status, else a `BadRemoteResponse` that carries the text of the status.
pub open spec fn write_rule(response: Response, expected: u16, r: Result<(), TolstoyError>) -> bool {
    &&& response.status == expected ==> r is Ok
    &&& response.status != expected ==> (r matches Err(TolstoyError::BadRemoteResponse(text))
        && text@ == response.reason@)
}

/// Judges the response to a write: the expected status is success, any
/// other status is a `BadRemoteResponse` that carries the text of the status
/// that was observed.
pub fn put_outcome(response: &Response, expected: u16) -> (r: Result<(), TolstoyError>)
    ensures
        write_rule(*response, expected, r),
{
    if response.status == expected {
        Ok(())
    } else {
        Err(TolstoyError::BadRemoteResponse(response.reason.clone()))
    }
}

/// Judges the status of the response to a read: not-found says that the
/// log does not hold what was asked for, which is a `BadRemoteState`; any
/// other status but success is a `BadRemoteResponse`. Both carry the text of
/// the status that was observed.
pub fn get_outcome(response: &Response) -> (r: Result<(), TolstoyError>)
    ensures
        response.status == STATUS_OK ==> r is Ok,
        response.status == STATUS_NOT_FOUND ==> (r matches Err(TolstoyError::BadRemoteState(text))
            && text@ == response.reason@),
        response.status != STATUS_OK && response.status != STATUS_NOT_FOUND ==> (r matches Err(
            TolstoyError::BadRemoteResponse(text),
        ) && text@ == response.reason@),
{
    if response.status == STATUS_OK {
        Ok(())
    } else if response.status == STATUS_NOT_FOUND {
        Err(TolstoyError::BadRemoteState(response.reason.clone()))
    } else {
        Err(TolstoyError::BadRemoteResponse(response.reason.clone()))
    }
}

/// What the response to a head request comes to: with the status of
/// success, the head that the body carries; a head that is no identifier is
/// a `BadRemoteState`, a body without a head a `BadRemoteResponse`. Any
/// other status fails as it does for every read.
pub open spec fn head_rule(response: Response, r: Result<Uuid, TolstoyError>) -> bool {
    &&& response.status == STATUS_OK ==> match head_read(response.body@) {
        HeadRead::Head(head) => r == Ok::<Uuid, TolstoyError>(head),
        HeadRead::Malformed(text) => r matches Err(TolstoyError::BadRemoteState(t)) && t@ == text,
        HeadRead::Missing => r matches Err(TolstoyError::BadRemoteResponse(b)) && b@
            == response.body@,
    }
    &&& response.status == STATUS_NOT_FOUND ==> (r matches Err(TolstoyError::BadRemoteState(text))
        && text@ == response.reason@)
    &&& response.status != STATUS_OK && response.status != STATUS_NOT_FOUND ==> (r matches Err(
        TolstoyError::BadRemoteResponse(text),
    ) && text@ == response.reason@)
}

/// The head that the response to a head request carries. A head that is
/// no identifier is a `BadRemoteState`; a body without a head is a
/// `BadRemoteResponse`.
pub fn head_from_response(response: &Response) -> (r: Result<Uuid, TolstoyError>)
    ensures
        head_rule(*response, r),
{
    match get_outcome(response) {
        Ok(()) => decode_head(response.body.as_str()),
        Err(e) => Err(e),
    }
}

/// The transaction identifiers that the response to a list request
/// carries.
pub fn transactions_from_response(response: &Response) -> (r: Result<Vec<Uuid>, TolstoyError>)
    ensures
        response.status == STATUS_OK ==> match transaction_list_found(response.body@) {
            Some(ids) => r matches Ok(found) && found@ == ids,
            None => r matches Err(TolstoyError::BadRemoteResponse(b)) && b@ == response.body@,
        },
        response.status == STATUS_NOT_FOUND ==> (r matches Err(TolstoyError::BadRemoteState(text))
            && text@ == response.reason@),
        response.status != STATUS_OK && response.status != STATUS_NOT_FOUND ==> (r matches Err(
            TolstoyError::BadRemoteResponse(text),
        ) && text@ == response.reason@),
{
    match get_outcome(response) {
        Ok(()) => decode_transaction_list(response.body.as_str()),
        Err(e) => Err(e),
    }
}

/// The transaction header that the response to a header request carries.
pub fn header_from_response(response: &Response) -> (r: Result<TxHeader, TolstoyError>)
    ensures
        response.status == STATUS_OK ==> match header_found(response.body@) {
            Some(header) => r matches Ok(found) && found@ == header,
            None => r matches Err(TolstoyError::BadRemoteResponse(b)) && b@ == response.body@,
        },
        response.status == STATUS_NOT_FOUND ==> (r matches Err(TolstoyError::BadRemoteState(text))
            && text@ == response.reason@),
        response.status != STATUS_OK && response.status != STATUS_NOT_FOUND ==> (r matches Err(
            TolstoyError::BadRemoteResponse(text),
        ) && text@ == response.reason@),
{
    match get_outcome(response) {
        Ok(()) => decode_transaction_header(response.body.as_str()),
        Err(e) => Err(e),
    }
}

/// The fact that the response to a chunk request carries. A payload that
/// holds no fact is a `SerializationError` that carries the payload.
pub fn chunk_from_response(response: &Response) -> (r: Result<TxPart, TolstoyError>)
    ensures
        response.status == STATUS_OK ==> match part_found(response.body@) {
            Some(part) => r matches Ok(found) && found@ == part,
            None => r matches Err(TolstoyError::SerializationError(b)) && b@ == response.body@,
        },
        response.status == STATUS_NOT_FOUND ==> (r matches Err(TolstoyError::BadRemoteState(text))
            && text@ == response.reason@),
        response.status != STATUS_OK && response.status != STATUS_NOT_FOUND ==> (r matches Err(
            TolstoyError::BadRemoteResponse(text),
        ) && text@ == response.reason@),
{
    match get_outcome(response) {
        Ok(()) => decode_part(response.body.as_str()),
        Err(e) => Err(e),
    }
}

/// What a fetch waits for.
#[derive(Clone, Copy, Debug, PartialEq, Eq, Structural)]
pub enum FetchPhase {
    /// The list of the transactions after the watermark.
    List,
    /// The header of the next transaction of the list.
    Header,
    /// The next chunk of the transaction whose header was read last.
    Chunk,
}

/// The state of fetching the transactions after a watermark: the list of
/// their identifiers, then for each its header, then each of its chunks.
/// Nothing is handed out before all of it is there.
#[derive(Debug)]
pub struct Fetch {
    after: Uuid,
    phase: FetchPhase,
    ids: Vec<Uuid>,
    parent: Uuid,
    chunks: Vec<Uuid>,
    seq: Option<i64>,
    parts: Vec<TxPart>,
    done: Vec<Tx>,
}

/// What a `Fetch` holds, as mathematics.
pub struct FetchView {
    /// The watermark.
    pub after: Uuid,
    pub phase: FetchPhase,
    /// The identifiers that the log listed.
    pub ids: Seq<Uuid>,
    /// The parent of the transaction whose chunks are being read.
    pub parent: Uuid,
    /// The chunks of the transaction whose chunks are being read.
    pub chunks: Seq<Uuid>,
    /// The sequence number of the header that was read last.
    pub seq: Option<i64>,
    /// The facts read so far of the transaction whose chunks are being read.
    pub parts: Seq<TxPartView>,
    /// The transactions that are complete.
    pub done: Seq<TxView>,
}

/// What a fetch does next.
#[derive(Debug)]
pub enum FetchStep {
    /// Send this request and hand its response to this fetch.
    Send(Fetch, Request),
    /// The fetch is complete: these are the transactions, in causal order.
    Done(Vec<Tx>),
    /// The fetch has failed.
    Failed(TolstoyError),
}

/// What a fetch does next, as mathematics; a refusal is a failure with
/// `BadRemoteState`.
pub enum StepView {
    Send(FetchView, RequestView),
    Done(Seq<TxView>),
    Refused,
}

/// The step is the one that `expected` describes.
pub open spec fn agrees(step: FetchStep, expected: StepView) -> bool {
    match expected {
        StepView::Send(f, r) => step matches FetchStep::Send(fetch, request) && fetch@ == f
            && request@ == r,
        StepView::Done(txs) => step matches FetchStep::Done(done) && txs_view(done@) == txs,
        StepView::Refused => step matches FetchStep::Failed(TolstoyError::BadRemoteState(_)),
    }
}

impl FetchView {
    /// The state before the list is there.
    pub open spec fn initial(after: Uuid) -> FetchView {
        FetchView {
            after,
            phase: FetchPhase::List,
            ids: Seq::empty(),
            parent: after,
            chunks: Seq::empty(),
            seq: None,
            parts: Seq::empty(),
            done: Seq::empty(),
        }
    }

    /// The transaction that the next header must name as its parent: the
    /// one completed last, or the watermark.
    pub open spec fn expected_parent(self) -> Uuid {
        if self.done.len() == 0 {
            self.after
        } else {
            self.done.last().tx
        }
    }

    /// The complete transactions are the first of the list, in order and
    /// in one causal chain from the watermark, and the phase fits what is
    /// still missing.
    pub open spec fn wf(self) -> bool {
        &&& self.done.len() <= self.ids.len()
        &&& forall|k: int| 0 <= k < self.done.len() ==> (#[trigger] self.done[k]).tx == self.ids[k]
        &&& causal_chain(self.after, self.done)
        &&& match self.phase {
            FetchPhase::List => self.ids.len() == 0 && self.parts.len() == 0,
            FetchPhase::Header => self.done.len() < self.ids.len() && self.parts.len() == 0,
            FetchPhase::Chunk => self.done.len() < self.ids.len() && self.parts.len()
                < self.chunks.len() && self.parent == self.expected_parent(),
        }
    }

    /// How far the fetch is from its end, as four numbers of which each
    /// counts only while those before it stand still: whether the list is
    /// missing, how many transactions are incomplete, whether a header is
    /// missing, and how many chunks of the current transaction are missing.
    pub open spec fn distance(self) -> (int, int, int, int) {
        (
            if self.phase == FetchPhase::List {
                1
            } else {
                0
            },
            self.ids.len() - self.done.len(),
            if self.phase == FetchPhase::Header {
                1
            } else {
                0
            },
            self.chunks.len() - self.parts.len(),
        )
    }

    /// This state is nearer to the end of the fetch than `earlier`.
    pub open spec fn nearer_than(self, earlier: FetchView) -> bool {
        let (a, b, c, d) = self.distance();
        let (a0, b0, c0, d0) = earlier.distance();
        &&& 0 <= a && 0 <= b && 0 <= c && 0 <= d
        &&& a < a0 || (a == a0 && (b < b0 || (b == b0 && (c < c0 || (c == c0 && d < d0)))))
    }

    /// After the list arrived: done where it is empty, else the header of
    /// its first transaction is asked for.
    pub open spec fn listed(self, client: &RemoteClient, ids: Seq<Uuid>) -> StepView {
        if ids.len() == 0 {
            StepView::Done(Seq::empty())
        } else {
            StepView::Send(
                FetchView { phase: FetchPhase::Header, ids, ..self },
                get_of(client.transaction_uri(ids[0])),
            )
        }
    }

    /// After the transaction that is being read became complete with these
    /// facts: done where it was the last of the list, else the header of the
    /// next one is asked for.
    pub open spec fn completed(
        self,
        client: &RemoteClient,
        parent: Uuid,
        parts: Seq<TxPartView>,
    ) -> StepView {
        let tx = TxView { tx: self.ids[self.done.len() as int], parent, parts };
        let done = self.done.push(tx);
        if done.len() == self.ids.len() {
            StepView::Done(done)
        } else {
            StepView::Send(
                FetchView {
                    phase: FetchPhase::Header,
                    parent,
                    chunks: Seq::empty(),
                    parts: Seq::empty(),
                    done,
                    ..self
                },
                get_of(client.transaction_uri(self.ids[done.len() as int])),
            )
        }
    }

    /// After a header arrived. It is refused unless it names the
    /// transaction that was asked for, names as its parent the transaction
    /// before it in the list, or the watermark for the first, and has a
    /// greater sequence number than the header before it. A transaction
    /// without chunks is complete at once; else its first chunk is asked
    /// for.
    pub open spec fn headed(self, client: &RemoteClient, header: TxHeaderView) -> StepView {
        if header.id != self.ids[self.done.len() as int] || header.parent != self.expected_parent()
            || (self.seq matches Some(s) && header.seq <= s) {
            StepView::Refused
        } else if header.chunks.len() == 0 {
            (FetchView { seq: Some(header.seq), ..self }).completed(
                client,
                header.parent,
                Seq::empty(),
            )
        } else {
            StepView::Send(
                FetchView {
                    phase: FetchPhase::Chunk,
                    parent: header.parent,
                    chunks: header.chunks,
                    seq: Some(header.seq),
                    parts: Seq::empty(),
                    ..self
                },
                get_of(client.chunk_uri(header.chunks[0])),
            )
        }
    }

    /// After a chunk arrived: the next chunk is asked for, or the
    /// transaction is complete.
    pub open spec fn chunked(self, client: &RemoteClient, part: TxPartView) -> StepView {
        let parts = self.parts.push(part);
        if parts.len() < self.chunks.len() {
            StepView::Send(
                FetchView { parts, ..self },
                get_of(client.chunk_uri(self.chunks[parts.len() as int])),
            )
        } else {
            self.completed(client, self.parent, parts)
        }
    }
}

/// What a response comes to for a fetch that waits for it.
pub enum FetchEnd {
    /// The fetch goes on in this state and asks for this.
    Asks(FetchView, RequestView),
    /// The fetch is complete with these transactions.
    Transactions(Seq<TxView>),
    /// The fetch has failed.
    Fails,
}

/// What a step comes to.
pub open spec fn end_of(step: StepView) -> FetchEnd {
    match step {
        StepView::Send(state, request) => FetchEnd::Asks(state, request),
        StepView::Done(txs) => FetchEnd::Transactions(txs),
        StepView::Refused => FetchEnd::Fails,
    }
}

impl FetchView {
    /// What `response` comes to for a fetch in this state: a status other
    /// than success and a body that does not carry what the fetch waits for
    /// fail it; else the list, the header or the chunk that the body carries
    /// is taken.
    pub open spec fn answered(self, client: &RemoteClient, response: Response) -> FetchEnd {
        if response.status != STATUS_OK {
            FetchEnd::Fails
        } else {
            match self.phase {
                FetchPhase::List => match transaction_list_found(response.body@) {
                    Some(ids) => end_of(self.listed(client, ids)),
                    None => FetchEnd::Fails,
                },
                FetchPhase::Header => match header_found(response.body@) {
                    Some(header) => end_of(self.headed(client, header)),
                    None => FetchEnd::Fails,
                },
                FetchPhase::Chunk => match part_found(response.body@) {
                    Some(part) => end_of(self.chunked(client, part)),
                    None => FetchEnd::Fails,
                },
            }
        }
    }
}

/// The step is the one that `end` describes.
pub open spec fn comes_to(step: FetchStep, end: FetchEnd) -> bool {
    match end {
        FetchEnd::Asks(state, asked) => step matches FetchStep::Send(fetch, request) && fetch@
            == state && request@ == asked,
        FetchEnd::Transactions(txs) => step matches FetchStep::Done(done) && txs_view(done@)
            == txs,
        FetchEnd::Fails => step is Failed,
    }
}

/// Where a fetch of the transactions after `after` stands once these
/// exchanges were made: the state it is in and the request it asks for
/// next. It stands nowhere if one of the exchanges sent another request than
/// the fetch asked for, or followed an exchange that ended the fetch.
pub open spec fn fetch_progress(
    client: &RemoteClient,
    after: Uuid,
    exchanges: Seq<Exchange>,
) -> Option<(FetchView, RequestView)>
    decreases exchanges.len(),
{
    if exchanges.len() == 0 {
        Some((FetchView::initial(after), get_of(client.transactions_uri(after))))
    } else {
        match fetch_progress(client, after, exchanges.drop_last()) {
            Some((state, request)) => {
                let last = exchanges.last();
                if last.request == request {
                    match last.outcome {
                        Ok(response) => match state.answered(client, response) {
                            FetchEnd::Asks(next, asked) => Some((next, asked)),
                            _ => None,
                        },
                        Err(_) => None,
                    }
                } else {
                    None
                }
            },
            None => None,
        }
    }
}

/// These exchanges are one whole fetch of the transactions after `after`,
/// and `r` is what it came to. Each exchange sent what the fetch asked for
/// at that point; each but the last was answered and did not end the fetch;
/// the last ended it. A failure of the transport is passed on as it is, a
/// response that fails the fetch gives a failure, and a response that
/// completes it gives the transactions that the responses carried.
pub open spec fn fetch_ended(
    client: &RemoteClient,
    after: Uuid,
    exchanges: Seq<Exchange>,
    r: Result<Vec<Tx>, TolstoyError>,
) -> bool {
    &&& exchanges.len() > 0
    &&& match fetch_progress(client, after, exchanges.drop_last()) {
        Some((state, request)) => exchanges.last().request == request && match exchanges.last().outcome {
            Err(e) => r == Err::<Vec<Tx>, TolstoyError>(e),
            Ok(response) => match state.answered(client, response) {
                FetchEnd::Asks(_, _) => false,
                FetchEnd::Transactions(txs) => r matches Ok(found) && txs_view(found@) == txs,
                FetchEnd::Fails => r is Err,
            },
        },
        None => false,
    }
}

/// Causal ordering of what a fetch hands out: whatever arrives, a fetch in
/// good order stays in good order, and the transactions that it ends with
/// are those of the list, in order, each the child of the one before it and
/// the first the child of the watermark.
pub proof fn lemma_fetch_is_causal(state: FetchView, client: &RemoteClient, next: StepView)
    requires
        state.wf(),
        ({
            ||| (state.phase == FetchPhase::List && exists|ids: Seq<Uuid>|
                next == state.listed(client, ids))
            ||| (state.phase == FetchPhase::Header && exists|header: TxHeaderView|
                next == state.headed(client, header))
            ||| (state.phase == FetchPhase::Chunk && exists|part: TxPartView|
                next == state.chunked(client, part))
        }),
    ensures
        match next {
            StepView::Send(after, _) => after.wf() && after.after == state.after
                && after.nearer_than(state),
            StepView::Done(txs) => {
                &&& causal_chain(state.after, txs)
                &&& txs.len() == (if state.phase == FetchPhase::List {
                    0
                } else {
                    state.ids.len()
                })
                &&& forall|k: int| 0 <= k < txs.len() ==> (#[trigger] txs[k]).tx == state.ids[k]
            },
            StepView::Refused => true,
        },
{
    if state.phase == FetchPhase::Header {
        let header = choose|header: TxHeaderView| next == state.headed(client, header);
        if header.chunks.len() == 0 && next !is Refused {
            lemma_completed_is_causal(
                FetchView { seq: Some(header.seq), ..state },
                client,
                header.parent,
                Seq::empty(),
            );
        }
    } else if state.phase == FetchPhase::Chunk {
        let part = choose|part: TxPartView| next == state.chunked(client, part);
        if state.parts.push(part).len() >= state.chunks.len() {
            lemma_completed_is_causal(state, client, state.parent, state.parts.push(part));
        }
    }
}

/// Completing a transaction with the parent that was expected keeps the
/// chain.
pub proof fn lemma_completed_is_causal(
    state: FetchView,
    client: &RemoteClient,
    parent: Uuid,
    parts: Seq<TxPartView>,
)
    requires
        state.done.len() < state.ids.len(),
        forall|k: int| 0 <= k < state.done.len() ==> (#[trigger] state.done[k]).tx == state.ids[k],
        causal_chain(state.after, state.done),
        parent == state.expected_parent(),
    ensures
        match state.completed(client, parent, parts) {
            StepView::Send(after, _) => after.wf() && after.after == state.after
                && after.ids.len() - after.done.len() < state.ids.len() - state.done.len()
                && after.phase == FetchPhase::Header && after.chunks.len() == 0,
            StepView::Done(txs) => {
                &&& causal_chain(state.after, txs)
                &&& txs.len() == state.ids.len()
                &&& forall|k: int| 0 <= k < txs.len() ==> (#[trigger] txs[k]).tx == state.ids[k]
            },
            StepView::Refused => false,
        },
{
    let tx = TxView { tx: state.ids[state.done.len() as int], parent, parts };
    let done = state.done.push(tx);
    assert forall|i: int| 0 <= i < done.len() implies (#[trigger] done[i]).parent == (if i == 0 {
        state.after
    } else {
        done[i - 1].tx
    }) by {
        if i < state.done.len() {
            assert(done[i] == state.done[i]);
            if i > 0 {
                assert(done[i - 1] == state.done[i - 1]);
            }
        } else if i > 0 {
            assert(done[i - 1] == state.done[i - 1]);
        }
    }
    assert forall|k: int| 0 <= k < done.len() implies (#[trigger] done[k]).tx == state.ids[k] by {
        if k < state.done.len() {
            assert(done[k] == state.done[k]);
        }
    }
}

impl View for Fetch {
    type V = FetchView;

    closed spec fn view(&self) -> FetchView {
        FetchView {
            after: self.after,
            phase: self.phase,
            ids: self.ids@,
            parent: self.parent,
            chunks: self.chunks@,
            seq: self.seq,
            parts: parts_view(self.parts@),
            done: txs_view(self.done@),
        }
    }
}

impl Fetch {
    #[verifier::type_invariant]
    spec fn in_good_order(self) -> bool {
        self@.wf()
    }

    /// Begins to fetch the transactions after `after`: the list is asked
    /// for.
    pub fn start(client: &RemoteClient, after: &Uuid) -> (r: (Fetch, Request))
        ensures
            r.0@ == FetchView::initial(*after),
            r.1@ == get_of(client.transactions_uri(*after)),
    {
        let fetch = Fetch {
            after: *after,
            phase: FetchPhase::List,
            ids: Vec::new(),
            parent: *after,
            chunks: Vec::new(),
            seq: None,
            parts: Vec::new(),
            done: Vec::new(),
        };
        proof {
            assert(fetch@.parts =~= Seq::empty());
            assert(fetch@.done =~= Seq::empty());
        }
        (fetch, client.transactions_request(after))
    }

    /// What the fetch waits for.
    pub fn phase(&self) -> (phase: FetchPhase)
        ensures
            phase == self@.phase,
    {
        self.phase
    }

    /// Takes the list of the transactions after the watermark. A fetch that
    /// does not wait for the list fails with `UnexpectedState`.
    pub fn on_list(self, client: &RemoteClient, ids: Vec<Uuid>) -> (step: FetchStep)
        ensures
            self@.phase == FetchPhase::List ==> agrees(step, self@.listed(client, ids@)),
            self@.phase != FetchPhase::List ==> step matches FetchStep::Failed(
                TolstoyError::UnexpectedState(_),
            ),
    {
        proof {
            use_type_invariant(&self);
        }
        if self.phase != FetchPhase::List {
            return FetchStep::Failed(
                TolstoyError::UnexpectedState(String::from_str("no list was asked for")),
            );
        }
        if ids.len() == 0 {
            let done: Vec<Tx> = Vec::new();
            assert(txs_view(done@) =~= Seq::empty());
            return FetchStep::Done(done);
        }
        let request = client.transaction_request(&ids[0]);
        let ghost before = self@;
        let next = Fetch {
            after: self.after,
            phase: FetchPhase::Header,
            ids,
            parent: self.parent,
            chunks: self.chunks,
            seq: self.seq,
            parts: self.parts,
            done: self.done,
        };
        proof {
            assert(next@ == FetchView { phase: FetchPhase::Header, ids: ids@, ..before });
        }
        FetchStep::Send(next, request)
    }

    /// Completes the transaction that is being read and goes on to the next
    /// one of the list.
    fn complete(
        after: Uuid,
        ids: Vec<Uuid>,
        seq: Option<i64>,
        done: Vec<Tx>,
        client: &RemoteClient,
        parent: Uuid,
        parts: Vec<TxPart>,
        Ghost(state): Ghost<FetchView>,
    ) -> (step: FetchStep)
        requires
            state.after == after,
            state.ids == ids@,
            state.seq == seq,
            state.done == txs_view(done@),
            done.len() < ids.len(),
            forall|k: int| 0 <= k < state.done.len() ==> (#[trigger] state.done[k]).tx == ids@[k],
            causal_chain(after, state.done),
            parent == state.expected_parent(),
        ensures
            agrees(step, state.completed(client, parent, parts_view(parts@))),
    {
        let mut done = done;
        let id = ids[done.len()];
        let ghost tx = TxView { tx: id, parent, parts: parts_view(parts@) };
        done.push(Tx { tx: id, parent, parts });
        proof {
            assert(txs_view(done@) =~= state.done.push(tx));
            lemma_completed_is_causal(state, client, parent, tx.parts);
        }
        if done.len() == ids.len() {
            FetchStep::Done(done)
        } else {
            let request = client.transaction_request(&ids[done.len()]);
            let next = Fetch {
                after,
                phase: FetchPhase::Header,
                ids,
                parent,
                chunks: Vec::new(),
                seq,
                parts: Vec::new(),
                done,
            };
            proof {
                assert(next@.parts =~= Seq::empty());
                assert(next@.chunks =~= Seq::empty());
                assert(next@ == FetchView {
                    phase: FetchPhase::Header,
                    chunks: Seq::empty(),
                    parts: Seq::empty(),
                    done: state.done.push(tx),
                    parent,
                    ..state
                });
            }
            FetchStep::Send(next, request)
        }
    }

    /// Takes the header of the next transaction of the list. A fetch that
    /// does not wait for a header fails with `UnexpectedState`.
    pub fn on_header(self, client: &RemoteClient, header: TxHeader) -> (step: FetchStep)
        ensures
            self@.phase == FetchPhase::Header ==> agrees(step, self@.headed(client, header@)),
            self@.phase != FetchPhase::Header ==> step matches FetchStep::Failed(
                TolstoyError::UnexpectedState(_),
            ),
    {
        proof {
            use_type_invariant(&self);
        }
        if self.phase != FetchPhase::Header {
            return FetchStep::Failed(
                TolstoyError::UnexpectedState(String::from_str("no header was asked for")),
            );
        }
        let ghost before = self@;
        let expected_parent = if self.done.len() == 0 {
            self.after
        } else {
            self.done[self.done.len() - 1].tx
        };
        assert(expected_parent == before.expected_parent());
        if header.id != self.ids[self.done.len()] {
            return FetchStep::Failed(
                TolstoyError::BadRemoteState(
                    String::from_str("header names another transaction than the one asked for"),
                ),
            );
        }
        if header.parent != expected_parent {
            return FetchStep::Failed(
                TolstoyError::BadRemoteState(
                    String::from_str("transaction does not follow the one before it"),
                ),
            );
        }
        match self.seq {
            Some(last) => {
                if header.seq <= last {
                    return FetchStep::Failed(
                        TolstoyError::BadRemoteState(
                            String::from_str("sequence numbers do not increase"),
                        ),
                    );
                }
            },
            None => {},
        }
        if header.chunks.len() == 0 {
            let ghost state = FetchView { seq: Some(header.seq), ..before };
            let parts: Vec<TxPart> = Vec::new();
            assert(parts_view(parts@) =~= Seq::empty());
            return Self::complete(
                self.after,
                self.ids,
                Some(header.seq),
                self.done,
                client,
                header.parent,
                parts,
                Ghost(state),
            );
        }
        let request = client.chunk_request(&header.chunks[0]);
        let next = Fetch {
            after: self.after,
            phase: FetchPhase::Chunk,
            ids: self.ids,
            parent: header.parent,
            chunks: header.chunks,
            seq: Some(header.seq),
            parts: Vec::new(),
            done: self.done,
        };
        proof {
            assert(next@.parts =~= Seq::empty());
            assert(next@ == FetchView {
                phase: FetchPhase::Chunk,
                parent: header@.parent,
                chunks: header@.chunks,
                seq: Some(header@.seq),
                parts: Seq::empty(),
                ..before
            });
        }
        FetchStep::Send(next, request)
    }

    /// Takes the next chunk of the transaction that is being read. A fetch
    /// that does not wait for a chunk fails with `UnexpectedState`.
    pub fn on_chunk(self, client: &RemoteClient, part: TxPart) -> (step: FetchStep)
        ensures
            self@.phase == FetchPhase::Chunk ==> agrees(step, self@.chunked(client, part@)),
            self@.phase != FetchPhase::Chunk ==> step matches FetchStep::Failed(
                TolstoyError::UnexpectedState(_),
            ),
    {
        proof {
            use_type_invariant(&self);
        }
        if self.phase != FetchPhase::Chunk {
            return FetchStep::Failed(
                TolstoyError::UnexpectedState(String::from_str("no chunk was asked for")),
            );
        }
        let ghost before = self@;
        let mut parts = self.parts;
        parts.push(part);
        assert(parts_view(parts@) =~= before.parts.push(part@));
        if parts.len() < self.chunks.len() {
            let request = client.chunk_request(&self.chunks[parts.len()]);
            let next = Fetch {
                after: self.after,
                phase: FetchPhase::Chunk,
                ids: self.ids,
                parent: self.parent,
                chunks: self.chunks,
                seq: self.seq,
                parts,
                done: self.done,
            };
            proof {
                assert(next@ == FetchView { parts: before.parts.push(part@), ..before });
            }
            FetchStep::Send(next, request)
        } else {
            Self::complete(
                self.after,
                self.ids,
                self.seq,
                self.done,
                client,
                self.parent,
                parts,
                Ghost(before),
            )
        }
    }

    /// Takes the response to the request that the fetch asked for last and
    /// says what to do next.
    ///
    /// A status other than success ends the fetch: not-found as
    /// `BadRemoteState`, any other as `BadRemoteResponse`, both with the text
    /// of the status. A body that does not carry what was asked for ends it
    /// too: a list or a header as `BadRemoteResponse`, a chunk as
    /// `SerializationError`, both with the body.
    pub fn step(self, client: &RemoteClient, response: &Response) -> (step: FetchStep)
        ensures
            comes_to(step, self@.answered(client, *response)),
            response.status == STATUS_NOT_FOUND ==> (step matches FetchStep::Failed(
                TolstoyError::BadRemoteState(text),
            ) && text@ == response.reason@),
            response.status != STATUS_OK && response.status != STATUS_NOT_FOUND ==> (
            step matches FetchStep::Failed(TolstoyError::BadRemoteResponse(text)) && text@
                == response.reason@),
            response.status == STATUS_OK ==> match self@.phase {
                FetchPhase::List => match transaction_list_found(response.body@) {
                    Some(ids) => agrees(step, self@.listed(client, ids)),
                    None => step matches FetchStep::Failed(TolstoyError::BadRemoteResponse(b))
                        && b@ == response.body@,
                },
                FetchPhase::Header => match header_found(response.body@) {
                    Some(header) => agrees(step, self@.headed(client, header)),
                    None => step matches FetchStep::Failed(TolstoyError::BadRemoteResponse(b))
                        && b@ == response.body@,
                },
                FetchPhase::Chunk => match part_found(response.body@) {
                    Some(part) => agrees(step, self@.chunked(client, part)),
                    None => step matches FetchStep::Failed(TolstoyError::SerializationError(b))
                        && b@ == response.body@,
                },
            },
    {
        match self.phase {
            FetchPhase::List => match transactions_from_response(response) {
                Ok(ids) => self.on_list(client, ids),
                Err(e) => FetchStep::Failed(e),
            },
            FetchPhase::Header => match header_from_response(response) {
                Ok(header) => self.on_header(client, header),
                Err(e) => FetchStep::Failed(e),
            },
            FetchPhase::Chunk => match chunk_from_response(response) {
                Ok(part) => self.on_chunk(client, part),
                Err(e) => FetchStep::Failed(e),
            },
        }
    }
}

/// One exchange with the log service: what was sent, and the response or
/// the failure that came back.
pub struct Exchange {
    pub request: RequestView,
    pub outcome: Result<Response, TolstoyError>,
}

/// The way to the log service: sends a request and hands back the
/// response, or the failure to get one.
pub trait Transport {
    /// Every exchange that went over this transport, oldest first. A
    /// transport that gives no model of itself is taken to have had none.
    open spec fn exchanges(&self) -> Seq<Exchange> {
        Seq::empty()
    }

    /// Sends the request and waits for what comes back; the exchange is
    /// then the last that went over the transport.
    fn send(&mut self, request: &Request) -> (r: Result<Response, TolstoyError>)
        ensures
            final(self).exchanges() == old(self).exchanges().push(
                Exchange { request: request@, outcome: r },
            ),
    ;
}

/// `after` is `before` and then one exchange, in which `request` was sent.
pub open spec fn exchanged_once(
    before: Seq<Exchange>,
    after: Seq<Exchange>,
    request: RequestView,
) -> bool {
    &&& after.len() == before.len() + 1
    &&& after.drop_last() =~= before
    &&& after.last().request == request
}

/// `after` is `before` and then the exchanges of one fetch: at least one,
/// the first of them sends `first`, and each but the last was answered.
pub open spec fn exchanged_fetch(
    before: Seq<Exchange>,
    after: Seq<Exchange>,
    first: RequestView,
) -> bool {
    &&& before.len() < after.len()
    &&& after.take(before.len() as int) =~= before
    &&& after[before.len() as int].request == first
    &&& forall|k: int|
        before.len() <= k < after.len() - 1 ==> (#[trigger] after[k]).outcome is Ok
}

impl Clone for Request {
    fn clone(&self) -> (r: Request)
        ensures
            r@ == self@,
    {
        Request {
            method: self.method,
            uri: self.uri.clone(),
            body: match &self.body {
                Some(body) => Some(body.clone()),
                None => None,
            },
            expected: self.expected,
        }
    }
}

/// The views of a sequence of requests, in order.
pub open spec fn requests_view(requests: Seq<Request>) -> Seq<RequestView> {
    Seq::new(requests.len(), |i: int| requests[i]@)
}

/// A transport that answers from a script: each request is answered by the
/// next answer of the script, and a request beyond the end of the script by
/// a `NetworkError`. It keeps what was sent.
pub struct ScriptedTransport {
    answers: Vec<Result<Response, TolstoyError>>,
    sent: Vec<Request>,
    history: Ghost<Seq<Exchange>>,
}

impl ScriptedTransport {
    /// The requests that were sent, oldest first.
    pub closed spec fn sent(&self) -> Seq<RequestView> {
        requests_view(self.sent@)
    }

    /// The answers that are left, the next first.
    pub closed spec fn script(&self) -> Seq<Result<Response, TolstoyError>> {
        self.answers@
    }

    /// A transport that will give these answers, the first to the first
    /// request.
    pub fn new(answers: Vec<Result<Response, TolstoyError>>) -> (transport: ScriptedTransport)
        ensures
            transport.script() == answers@,
            transport.exchanges() == Seq::<Exchange>::empty(),
            transport.sent() == Seq::<RequestView>::empty(),
    {
        let transport = ScriptedTransport { answers, sent: Vec::new(), history: Ghost(Seq::empty()) };
        assert(transport.sent() =~= Seq::<RequestView>::empty());
        transport
    }

    /// The requests that were sent, oldest first.
    pub fn requests(&self) -> (sent: &Vec<Request>)
        ensures
            requests_view(sent@) == self.sent(),
    {
        &self.sent
    }
}

impl Transport for ScriptedTransport {
    closed spec fn exchanges(&self) -> Seq<Exchange> {
        self.history@
    }

    fn send(&mut self, request: &Request) -> (r: Result<Response, TolstoyError>)
        ensures
            old(self).script().len() > 0 ==> r == old(self).script()[0] && final(self).script()
                == old(self).script().skip(1),
            old(self).script().len() == 0 ==> (r matches Err(TolstoyError::NetworkError(_)))
                && final(self).script() == old(self).script(),
            final(self).sent() == old(self).sent().push(request@),
    {
        let r = if self.answers.len() > 0 {
            let answer = self.answers.remove(0);
            assert(self.answers@ =~= old(self).answers@.skip(1));
            answer
        } else {
            Err(TolstoyError::NetworkError(String::from_str("the script has no more answers")))
        };
        let ghost earlier = self.history@;
        let ghost sent_before = self.sent@;
        self.sent.push(request.clone());
        proof {
            self.history = Ghost(earlier.push(Exchange { request: request@, outcome: r }));
            assert(requests_view(self.sent@) =~= requests_view(sent_before).push(request@));
        }
        r
    }
}

/// A remote log behind a transport. Each operation sends the requests of
/// the protocol one at a time and waits for each response; a failure of the
/// transport or a response that the protocol does not allow ends the
/// operation at once, and nothing is tried again.
pub struct RemoteLog<T: Transport> {
    pub client: RemoteClient,
    pub transport: T,
}

/// A failure of the transport is passed on as it is.
pub open spec fn failure_passed_on<V>(
    outcome: Result<Response, TolstoyError>,
    r: Result<V, TolstoyError>,
) -> bool {
    outcome matches Err(e) ==> r == Err::<V, TolstoyError>(e)
}

impl<T: Transport> RemoteLog<T> {
    /// A remote log reached through `transport`.
    pub fn new(client: RemoteClient, transport: T) -> (log: RemoteLog<T>)
        ensures
            log.client == client,
            log.transport == transport,
    {
        RemoteLog { client, transport }
    }

    /// Reads the head: sends the head request, once, and hands back the
    /// head that the response carries. A failure of the transport is passed
    /// on.
    pub fn head(&mut self) -> (r: Result<Uuid, TolstoyError>)
        ensures
            final(self).client == old(self).client,
            exchanged_once(
                old(self).transport.exchanges(),
                final(self).transport.exchanges(),
                get_of(old(self).client.head_uri()),
            ),
            failure_passed_on(final(self).transport.exchanges().last().outcome, r),
            final(self).transport.exchanges().last().outcome matches Ok(response) ==> head_rule(
                response,
                r,
            ),
    {
        let request = self.client.head_request();
        let ghost before = self.transport.exchanges();
        let outcome = self.transport.send(&request);
        proof {
            assert(self.transport.exchanges().drop_last() =~= before);
        }
        match outcome {
            Ok(response) => head_from_response(&response),
            Err(e) => Err(e),
        }
    }

    /// Sends a write, once, and judges its response by the status that the
    /// request expects. A failure of the transport is passed on.
    fn put(&mut self, request: Request) -> (r: Result<(), TolstoyError>)
        ensures
            final(self).client == old(self).client,
            exchanged_once(
                old(self).transport.exchanges(),
                final(self).transport.exchanges(),
                request@,
            ),
            failure_passed_on(final(self).transport.exchanges().last().outcome, r),
            final(self).transport.exchanges().last().outcome matches Ok(response) ==> write_rule(
                response,
                request.expected,
                r,
            ),
    {
        let expected = request.expected;
        let ghost before = self.transport.exchanges();
        let outcome = self.transport.send(&request);
        proof {
            assert(self.transport.exchanges().drop_last() =~= before);
        }
        match outcome {
            Ok(response) => put_outcome(&response, expected),
            Err(e) => Err(e),
        }
    }

    /// Overwrites the head: sends the head write, once, and succeeds where
    /// it is answered without content.
    pub fn set_head(&mut self, uuid: &Uuid) -> (r: Result<(), TolstoyError>)
        ensures
            final(self).client == old(self).client,
            exchanged_once(
                old(self).transport.exchanges(),
                final(self).transport.exchanges(),
                put_of(old(self).client.head_uri(), head_body(*uuid), STATUS_NO_CONTENT),
            ),
            failure_passed_on(final(self).transport.exchanges().last().outcome, r),
            final(self).transport.exchanges().last().outcome matches Ok(response) ==> write_rule(
                response,
                STATUS_NO_CONTENT,
                r,
            ),
    {
        let request = self.client.set_head_request(uuid);
        self.put(request)
    }

    /// Records a transaction header: sends the header write, once, and
    /// succeeds where it is answered as created. The chunks that the header
    /// names have to be stored before.
    pub fn put_transaction(
        &mut self,
        transaction_uuid: &Uuid,
        parent_uuid: &Uuid,
        chunks: &Vec<Uuid>,
    ) -> (r: Result<(), TolstoyError>)
        ensures
            final(self).client == old(self).client,
            exchanged_once(
                old(self).transport.exchanges(),
                final(self).transport.exchanges(),
                put_of(
                    old(self).client.transaction_uri(*transaction_uuid),
                    transaction_body(*parent_uuid, chunks@),
                    STATUS_CREATED,
                ),
            ),
            failure_passed_on(final(self).transport.exchanges().last().outcome, r),
            final(self).transport.exchanges().last().outcome matches Ok(response) ==> write_rule(
                response,
                STATUS_CREATED,
                r,
            ),
    {
        let request = self.client.put_transaction_request(transaction_uuid, parent_uuid, chunks);
        self.put(request)
    }

    /// Stores a fact as a chunk: sends the chunk write, once, and succeeds
    /// where it is answered as created.
    pub fn put_chunk(&mut self, chunk_uuid: &Uuid, payload: &TxPart) -> (r: Result<
        (),
        TolstoyError,
    >)
        ensures
            final(self).client == old(self).client,
            exchanged_once(
                old(self).transport.exchanges(),
                final(self).transport.exchanges(),
                put_of(
                    old(self).client.chunk_uri(*chunk_uuid),
                    part_body(payload@),
                    STATUS_CREATED,
                ),
            ),
            failure_passed_on(final(self).transport.exchanges().last().outcome, r),
            final(self).transport.exchanges().last().outcome matches Ok(response) ==> write_rule(
                response,
                STATUS_CREATED,
                r,
            ),
    {
        let request = self.client.put_chunk_request(chunk_uuid, payload);
        self.put(request)
    }

    /// Fetches every transaction after `tx` with its facts: the list, then
    /// each header, then each chunk, one request at a time. The list is
    /// asked for first, and a request is sent only after the one before it
    /// was answered. A failure of the transport ends the fetch and is
    /// passed on. Whatever the service answers, what comes back on success
    /// is one causal chain from `tx`.
    pub fn transactions_after(&mut self, tx: &Uuid) -> (r: Result<Vec<Tx>, TolstoyError>)
        ensures
            final(self).client == old(self).client,
            exchanged_fetch(
                old(self).transport.exchanges(),
                final(self).transport.exchanges(),
                get_of(old(self).client.transactions_uri(*tx)),
            ),
            failure_passed_on(final(self).transport.exchanges().last().outcome, r),
            r matches Ok(txs) ==> causal_chain(*tx, txs_view(txs@)),
            r is Ok ==> final(self).transport.exchanges().last().outcome is Ok,
            fetch_ended(
                &old(self).client,
                *tx,
                final(self).transport.exchanges().skip(
                    old(self).transport.exchanges().len() as int,
                ),
                r,
            ),
    {
        let (first, first_request) = Fetch::start(&self.client, tx);
        let mut fetch = first;
        let mut request = first_request;
        let ghost before = self.transport.exchanges();
        let ghost asked_first = get_of(self.client.transactions_uri(*tx));
        proof {
            assert(FetchView::initial(*tx).wf());
            assert(before.take(before.len() as int) =~= before);
            assert(before.skip(before.len() as int) =~= Seq::<Exchange>::empty());
        }
        loop
            invariant
                self.client == old(self).client,
                fetch_progress(
                    &self.client,
                    *tx,
                    self.transport.exchanges().skip(before.len() as int),
                ) == Some((fetch@, request@)),
                before == old(self).transport.exchanges(),
                asked_first == get_of(old(self).client.transactions_uri(*tx)),
                fetch@.wf(),
                fetch@.after == *tx,
                before.len() <= self.transport.exchanges().len(),
                self.transport.exchanges().take(before.len() as int) =~= before,
                self.transport.exchanges().len() == before.len() ==> request@ == asked_first,
                self.transport.exchanges().len() > before.len() ==> self.transport.exchanges()[before.len() as int].request
                    == asked_first,
                forall|k: int|
                    before.len() <= k < self.transport.exchanges().len() ==> (
                    #[trigger] self.transport.exchanges()[k]).outcome is Ok,
            decreases
                    fetch@.distance().0,
                    fetch@.distance().1,
                    fetch@.distance().2,
                    fetch@.distance().3,
        {
            let ghost earlier = self.transport.exchanges();
            let outcome = self.transport.send(&request);
            proof {
                let now = self.transport.exchanges();
                assert(now.skip(before.len() as int).drop_last() =~= earlier.skip(
                    before.len() as int,
                ));
                assert(now.skip(before.len() as int).last() == now.last());
                assert(now.take(before.len() as int) =~= before) by {
                    assert(earlier.take(before.len() as int) =~= before);
                }
                assert forall|k: int| before.len() <= k < now.len() - 1 implies (
                #[trigger] now[k]).outcome is Ok by {
                    assert(now[k] == earlier[k]);
                }
                if earlier.len() > before.len() {
                    assert(now[before.len() as int] == earlier[before.len() as int]);
                }
            }
            let response = match outcome {
                Ok(response) => response,
                Err(e) => {
                    return Err(e);
                },
            };
            let ghost state = fetch@;
            let ghost found_ids = transaction_list_found(response.body@);
            let ghost found_header = header_found(response.body@);
            let ghost found_part = part_found(response.body@);
            let step = fetch.step(&self.client, &response);
            proof {
                if step is Send || step is Done {
                    assert(response.status == STATUS_OK);
                    let next = match state.phase {
                        FetchPhase::List => state.listed(&self.client, found_ids->0),
                        FetchPhase::Header => state.headed(&self.client, found_header->0),
                        FetchPhase::Chunk => state.chunked(&self.client, found_part->0),
                    };
                    assert(agrees(step, next));
                    lemma_fetch_is_causal(state, &self.client, next);
                }
            }
            match step {
                FetchStep::Send(next, next_request) => {
                    fetch = next;
                    request = next_request;
                },
                FetchStep::Done(txs) => {
                    return Ok(txs);
                },
                FetchStep::Failed(e) => {
                    return Err(e);
                },
            }
        }
    }
}

} // verus!
