//! The failure vocabulary shared by every layer of the synchronizer.

use vstd::prelude::*;

verus! {

/// Everything that can go wrong while talking to a log or applying its content.
///
/// Failures that originate in a collaborator (the transport, the store, a
/// codec) are carried as the text that the collaborator reported.
#[derive(Debug)]
pub enum TolstoyError {
    /// Unexpected status or unreadable body; carries what was observed.
    BadRemoteResponse(String),
    /// The log's data contradicts the protocol's invariants.
    BadRemoteState(String),
    /// More than one metadata fact of a kind that must be singular.
    DuplicateMetadata(String),
    /// The local apply step did not signal completion.
    TxProcessorUnfinished,
    /// A temporary identifier had this many stable identifiers instead of one.
    TxIncorrectlyMapped(usize),
    /// A collaborator reported a state that the protocol does not allow.
    UnexpectedState(String),
    /// An explicit marker for a protocol extension that is not implemented.
    NotYetImplemented(String),
    /// A failure of the local store.
    DbError(String),
    /// Malformed JSON on either side of the wire.
    SerializationError(String),
    /// A failure of the SQL engine: its message and its cause.
    RusqliteError(String, String),
    /// A failure of local input or output.
    IoError(String),
    /// A text that is not a UUID.
    UuidError(String),
    /// A request could not be sent or a response could not be read.
    NetworkError(String),
    /// An address that is not a URI.
    UriError(String),
}

/// The error of the `rusqlite` crate, carried as it is.
#[verifier::external_type_specification]
#[verifier::external_body]
pub struct ExSqlError(rusqlite::Error);

/// The message that the `Display` of a `rusqlite::Error` writes.
pub uninterp spec fn sql_error_message(error: rusqlite::Error) -> Seq<char>;

/// The message of the error that a `rusqlite::Error` names as its source;
/// nothing where it names none.
pub uninterp spec fn sql_error_source(error: rusqlite::Error) -> Option<Seq<char>>;

/// The message of a `rusqlite::Error`, as its `Display` writes it. The
/// result is the one that `sql_error_message` names.
#[verifier::external_body]
fn sql_error_text(error: &rusqlite::Error) -> (text: String)
    ensures
        text@ == sql_error_message(*error),
{
    error.to_string()
}

/// The message of the error that a `rusqlite::Error` names as its source
/// through `std::error::Error::source`, where it names one. The result is
/// the one that `sql_error_source` names.
#[verifier::external_body]
fn sql_error_cause(error: &rusqlite::Error) -> (cause: Option<String>)
    ensures
        match cause {
            Some(text) => sql_error_source(*error) == Some(text@),
            None => sql_error_source(*error) is None,
        },
{
    match std::error::Error::source(error) {
        Some(source) => Some(source.to_string()),
        None => None,
    }
}

impl TolstoyError {
    /// The error for a failure of the SQL engine: it carries the message of
    /// the failure and the message of its cause, which is empty where the
    /// failure names none.
    pub fn from_rusqlite(error: &rusqlite::Error) -> (e: TolstoyError)
        ensures
            e matches TolstoyError::RusqliteError(m, c) && m@ == sql_error_message(*error) && c@
                == (match sql_error_source(*error) {
                Some(text) => text,
                None => Seq::<char>::empty(),
            }),
    {
        Self::from_sql_failure(sql_error_text(error), sql_error_cause(error))
    }

    /// The error for a failure of the SQL engine, from the engine's message
    /// and the message of its cause; a failure without a cause has the empty
    /// text as its cause.
    pub fn from_sql_failure(message: String, cause: Option<String>) -> (e: TolstoyError)
        ensures
            e matches TolstoyError::RusqliteError(m, c) && m == message && (match cause {
                Some(text) => c == text,
                None => c@ == Seq::<char>::empty(),
            }),
    {
        match cause {
            Some(text) => TolstoyError::RusqliteError(message, text),
            None => TolstoyError::RusqliteError(message, String::new()),
        }
    }
}

} // verus!
