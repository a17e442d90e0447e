//! Errors of the stores that keep headers and peers.

use vstd::prelude::*;

use crate::primitives::append;

verus! {

/// `rusqlite::Error`, carried through as an opaque value.
#[verifier::external_type_specification]
#[verifier::external_body]
pub struct ExRusqliteError(rusqlite::Error);

/// `std::io::Error`, carried through as an opaque value.
#[verifier::external_type_specification]
#[verifier::external_body]
pub struct ExIoError(std::io::Error);

/// Whether `text` begins with `prefix`.
pub open spec fn starts_with(text: Seq<char>, prefix: Seq<char>) -> bool {
    text.len() >= prefix.len() && text.subrange(0, prefix.len() as int) == prefix
}

/// `prefix` followed by `tail`.
fn prefixed(prefix: &str, tail: &str) -> (r: String)
    ensures
        r@ == prefix@ + tail@,
        starts_with(r@, prefix@),
{
    let mut text: String = prefix.to_owned();
    append(&mut text, tail);
    assert(text@.subrange(0, prefix@.len() as int) =~= prefix@);
    text
}

/// Whether `text` is `prefix` followed by the words that the error `e` of
/// an outside crate says of itself.
pub open spec fn says_after<T: std::fmt::Display>(e: &T, prefix: Seq<char>, text: Seq<char>) -> bool {
    exists|inner: String| #[trigger]
        vstd::string::to_string_from_display_ensures::<T>(e, inner) && text == prefix + inner@
}

/// `prefix` followed by the words that the error `e` says of itself.
fn explained<T: std::fmt::Display>(prefix: &str, e: &T) -> (r: String)
    ensures
        says_after(e, prefix@, r@),
        starts_with(r@, prefix@),
{
    let inner: String = e.to_string();
    let text: String = prefixed(prefix, inner.as_str());
    assert(vstd::string::to_string_from_display_ensures::<T>(e, inner) && text@ == prefix@
        + inner@);
    text
}

/// The error of a store: it can say in words what went wrong.
pub trait StoreError {
    /// Whether `text` is what the error says of itself.
    spec fn says(&self, text: Seq<char>) -> bool;

    /// What the error says of itself.
    fn text(&self) -> (r: String)
        ensures
            self.says(r@),
    ;
}

/// Errors when initializing a SQL-based backend.
#[derive(Debug)]
pub enum SqlInitializationError {
    /// A file or directory could not be opened or created.
    IO(std::io::Error),
    /// An error occured performing a SQL operation.
    SQL(rusqlite::Error),
}

impl SqlInitializationError {
    /// A sentence for the person reading the log: what failed, then the
    /// words of the error underneath.
    pub fn to_string(&self) -> (r: String)
        ensures
            self is IO ==> says_after(
                &self->IO_0,
                "a file or directory could not be opened or created: "@,
                r@,
            ) && starts_with(r@, "a file or directory could not be opened or created: "@),
            self is SQL ==> says_after(
                &self->SQL_0,
                "reading or writing from the database failed: "@,
                r@,
            ) && starts_with(r@, "reading or writing from the database failed: "@),
    {
        match self {
            SqlInitializationError::IO(e) => explained(
                "a file or directory could not be opened or created: ",
                e,
            ),
            SqlInitializationError::SQL(e) => explained(
                "reading or writing from the database failed: ",
                e,
            ),
        }
    }
}

impl From<rusqlite::Error> for SqlInitializationError {
    fn from(value: rusqlite::Error) -> (r: Self) {
        SqlInitializationError::SQL(value)
    }
}

impl vstd::std_specs::convert::FromSpecImpl<rusqlite::Error> for SqlInitializationError {
    open spec fn obeys_from_spec() -> bool {
        true
    }

    open spec fn from_spec(value: rusqlite::Error) -> Self {
        SqlInitializationError::SQL(value)
    }
}

impl From<std::io::Error> for SqlInitializationError {
    fn from(value: std::io::Error) -> (r: Self) {
        SqlInitializationError::IO(value)
    }
}

impl vstd::std_specs::convert::FromSpecImpl<std::io::Error> for SqlInitializationError {
    open spec fn obeys_from_spec() -> bool {
        true
    }

    open spec fn from_spec(value: std::io::Error) -> Self {
        SqlInitializationError::IO(value)
    }
}

/// Errors while reading or writing to and from a SQL-based backend.
#[derive(Debug)]
pub enum SqlError {
    /// A consensus critical data structure is malformed.
    Corruption,
    /// A string could not be deserialized into a known datatype.
    StringConversion,
    /// An error occured performing a SQL operation.
    SQL(rusqlite::Error),
}

impl SqlError {
    /// Whether `text` is the sentence of this error.
    pub open spec fn spec_says(&self, text: Seq<char>) -> bool {
        match self {
            SqlError::Corruption => text == "a consensus critical data structure is malformed."@,
            SqlError::StringConversion => text
                == "a string could not be deserialized into a known datatype."@,
            SqlError::SQL(e) => says_after(
                &self->SQL_0,
                "reading or writing from the database failed: "@,
                text,
            ),
        }
    }

    /// A sentence for the person reading the log.
    pub fn to_string(&self) -> (r: String)
        ensures
            self.spec_says(r@),
            self is SQL ==> starts_with(r@, "reading or writing from the database failed: "@),
    {
        match self {
            SqlError::StringConversion => "a string could not be deserialized into a known datatype.".to_owned(),
            SqlError::SQL(e) => explained("reading or writing from the database failed: ", e),
            SqlError::Corruption => "a consensus critical data structure is malformed.".to_owned(),
        }
    }
}

impl StoreError for SqlError {
    open spec fn says(&self, text: Seq<char>) -> bool {
        self.spec_says(text)
    }

    fn text(&self) -> (r: String) {
        self.to_string()
    }
}

impl From<rusqlite::Error> for SqlError {
    fn from(value: rusqlite::Error) -> (r: Self) {
        SqlError::SQL(value)
    }
}

impl vstd::std_specs::convert::FromSpecImpl<rusqlite::Error> for SqlError {
    open spec fn obeys_from_spec() -> bool {
        true
    }

    open spec fn from_spec(value: rusqlite::Error) -> Self {
        SqlError::SQL(value)
    }
}

/// Errors for the peer store of unit type.
#[derive(Debug, Clone, Copy, PartialEq, Eq, Structural)]
pub enum UnitPeerStoreError {
    /// There were no peers found.
    NoPeers,
}

impl UnitPeerStoreError {
    /// A sentence for the person reading the log.
    pub fn to_string(&self) -> (r: String)
        ensures
            r@ == "no peers in unit database."@,
    {
        match self {
            UnitPeerStoreError::NoPeers => "no peers in unit database.".to_owned(),
        }
    }
}

impl StoreError for UnitPeerStoreError {
    open spec fn says(&self, text: Seq<char>) -> bool {
        text == "no peers in unit database."@
    }

    fn text(&self) -> (r: String) {
        self.to_string()
    }
}

/// Errors for the in-memory peer store.
#[derive(Debug, Clone, Copy, PartialEq, Eq, Structural)]
pub enum StatelessPeerStoreError {
    /// There were no peers found.
    NoPeers,
}

impl StatelessPeerStoreError {
    /// A sentence for the person reading the log.
    pub fn to_string(&self) -> (r: String)
        ensures
            r@ == "no peers in the database."@,
    {
        match self {
            StatelessPeerStoreError::NoPeers => "no peers in the database.".to_owned(),
        }
    }
}

impl StoreError for StatelessPeerStoreError {
    open spec fn says(&self, text: Seq<char>) -> bool {
        text == "no peers in the database."@
    }

    fn text(&self) -> (r: String) {
        self.to_string()
    }
}

/// Errors when managing persisted peers. `P` is the error of the store.
#[derive(Debug)]
pub enum PeerManagerError<P: std::fmt::Debug + StoreError> {
    /// DNS failed to respond.
    Dns,
    /// Reading or writing from the database failed.
    Database(P),
}

impl<P: std::fmt::Debug + StoreError> PeerManagerError<P> {
    /// Whether `text` is the sentence of this error: what failed, then the
    /// words of the store's error where there is one.
    pub open spec fn spec_says(&self, text: Seq<char>) -> bool {
        match self {
            PeerManagerError::Dns => text == "DNS servers failed to respond."@,
            PeerManagerError::Database(e) => exists|inner: Seq<char>| #[trigger]
                e.says(inner) && text == "reading or writing from the database failed: "@ + inner,
        }
    }

    /// A sentence for the person reading the log: what failed, then the
    /// words of the store's error where there is one.
    pub fn to_string(&self) -> (r: String)
        ensures
            self.spec_says(r@),
            self is Database ==> starts_with(
                r@,
                "reading or writing from the database failed: "@,
            ),
    {
        match self {
            PeerManagerError::Dns => "DNS servers failed to respond.".to_owned(),
            PeerManagerError::Database(e) => {
                let inner: String = e.text();
                let text: String = prefixed(
                    "reading or writing from the database failed: ",
                    inner.as_str(),
                );
                assert(e.says(inner@) && text@
                    == "reading or writing from the database failed: "@ + inner@);
                text
            },
        }
    }
}

/// The sentence of a failure of the unit store of peers is the sentence of
/// a store that failed followed by the words of the unit store.
pub proof fn lemma_unit_store_text(e: PeerManagerError<UnitPeerStoreError>, text: Seq<char>)
    requires
        e is Database,
        e.spec_says(text),
    ensures
        text == "reading or writing from the database failed: "@ + "no peers in unit database."@,
{
}

/// The sentence of a failure of the store of peers in memory is the sentence
/// of a store that failed followed by the words of that store.
pub proof fn lemma_stateless_store_text(e: PeerManagerError<StatelessPeerStoreError>, text: Seq<char>)
    requires
        e is Database,
        e.spec_says(text),
    ensures
        text == "reading or writing from the database failed: "@ + "no peers in the database."@,
{
}

impl<P: std::fmt::Debug + StoreError> From<P> for PeerManagerError<P> {
    fn from(value: P) -> (r: Self) {
        PeerManagerError::Database(value)
    }
}

impl<P: std::fmt::Debug + StoreError> vstd::std_specs::convert::FromSpecImpl<P> for PeerManagerError<P> {
    open spec fn obeys_from_spec() -> bool {
        true
    }

    open spec fn from_spec(value: P) -> Self {
        PeerManagerError::Database(value)
    }
}

} // verus!
