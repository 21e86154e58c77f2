use vstd::prelude::*;

verus! {

/// Failures of the key-value store and of the records kept in it.
#[derive(Debug, PartialEq, Eq)]
pub enum CacheError {
    CannotDelete(String),
    CannotExists(String),
    CannotExpire(String),
    CannotGetDelete(String),
    CannotGetSet(String),
    CannotGetTransaction(String),
    CannotIncrement(String, String),
    CannotRename(String, String),
    CannotMget(String),
    CannotParse(String, String),
    CannotRemoveTransaction(String),
    CannotSaveTransaction(String),
    CannotScan(String),
    CannotSet(String),
    CannotSetNx(String),
    CannotSetEx(String),
    CannotUnwatch(String),
    CannotWatch(String),
    CannotZadd(String),
    CannotZcount(String),
    CannotZcard(String),
    CannotZscan(String),
    CannotZrangeByScore(String),
    CannotZrange(String),
    CannotZrem(String),
    CannotRemoveZelement(String, String),
    Error(String),
    CannotParseUrl,
    NotConnected,
    NotFound(String),
    NotFoundOrderElement(String, String),
    Unknown(String),
}

/// Failures of the ingestion worker around the index.
#[derive(Debug, PartialEq, Eq)]
pub enum PersistPlansError {
    DbError(String),
    RedisError(String),
    SerializationError(String),
    DeserializationError(String),
    NetworkError(String),
    TimeoutError(String),
    UnknownError(String),
    NotFound(String),
}

} // verus!
