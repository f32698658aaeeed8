//! Error types of the account, data-feed and broker edges, with the messages
//! they are displayed with.

use vstd::prelude::*;

verus! {

/// Message text: a fixed prefix followed by the detail.
pub open spec fn prefixed(prefix: Seq<char>, detail: Seq<char>) -> Seq<char> {
    prefix + detail
}

fn prefixed_string(prefix: &str, detail: &String) -> (r: String)
    ensures
        r@ == prefixed(prefix@, detail@),
{
    let mut r = String::from_str(prefix);
    r.append(detail.as_str());
    r
}

/// errors from account operations.
#[derive(Debug, PartialEq, Eq)]
pub enum AccountError {
    ConnectionFailed(String),
    FetchError(String),
}

impl AccountError {
    pub open spec fn message(&self) -> Seq<char> {
        match self {
            AccountError::ConnectionFailed(msg) => prefixed("account connection failed: "@, msg@),
            AccountError::FetchError(msg) => prefixed("account fetch error: "@, msg@),
        }
    }

    /// The text this error is displayed with.
    pub fn to_string(&self) -> (s: String)
        ensures
            s@ == self.message(),
    {
        match self {
            AccountError::ConnectionFailed(msg) => prefixed_string("account connection failed: ", msg),
            AccountError::FetchError(msg) => prefixed_string("account fetch error: ", msg),
        }
    }
}

/// errors from the data feed.
#[derive(Debug, PartialEq, Eq)]
pub enum DataFeedError {
    ConnectionFailed(String),
    StreamError(String),
    HistoricalFetchError(String),
}

impl DataFeedError {
    pub open spec fn message(&self) -> Seq<char> {
        match self {
            DataFeedError::ConnectionFailed(msg) => prefixed("connection failed: "@, msg@),
            DataFeedError::StreamError(msg) => prefixed("stream error: "@, msg@),
            DataFeedError::HistoricalFetchError(msg) => prefixed("historical fetch error: "@, msg@),
        }
    }

    /// The text this error is displayed with.
    pub fn to_string(&self) -> (s: String)
        ensures
            s@ == self.message(),
    {
        match self {
            DataFeedError::ConnectionFailed(msg) => prefixed_string("connection failed: ", msg),
            DataFeedError::StreamError(msg) => prefixed_string("stream error: ", msg),
            DataFeedError::HistoricalFetchError(msg) => prefixed_string(
                "historical fetch error: ",
                msg,
            ),
        }
    }
}

/// broker errors.
#[derive(Debug, PartialEq, Eq)]
pub enum BrokerError {
    OrderRejected(String),
    ConnectionError(String),
    NoPosition(String),
}

impl BrokerError {
    pub open spec fn message(&self) -> Seq<char> {
        match self {
            BrokerError::OrderRejected(msg) => prefixed("order rejected: "@, msg@),
            BrokerError::ConnectionError(msg) => prefixed("connection error: "@, msg@),
            BrokerError::NoPosition(msg) => prefixed("no position: "@, msg@),
        }
    }

    /// The text this error is displayed with.
    pub fn to_string(&self) -> (s: String)
        ensures
            s@ == self.message(),
    {
        match self {
            BrokerError::OrderRejected(msg) => prefixed_string("order rejected: ", msg),
            BrokerError::ConnectionError(msg) => prefixed_string("connection error: ", msg),
            BrokerError::NoPosition(msg) => prefixed_string("no position: ", msg),
        }
    }
}

/// Every error message ends with the detail it carries, so a caller's
/// detail text ("timeout", "unauthorized") is always visible in it.
pub proof fn lemma_messages_end_with_detail(prefix: Seq<char>, detail: Seq<char>)
    ensures
        prefixed(prefix, detail).subrange(
            prefix.len() as int,
            prefixed(prefix, detail).len() as int,
        ) == detail,
{
    assert(prefixed(prefix, detail).subrange(
        prefix.len() as int,
        prefixed(prefix, detail).len() as int,
    ) =~= detail);
}

} // verus!
