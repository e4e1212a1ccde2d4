//! Per-market orderbook indexer core: event decoding, repository semantics,
//! block-level operation dispatching and the pure decision logic around them.
use vstd::prelude::*;

pub mod api;
pub mod config;
pub mod digest;
pub mod dispatcher;
pub mod event;
pub mod fanout;
pub mod indexer;
pub mod repo;
pub mod store;
pub mod text;
pub mod types;

verus! {

/// Errors surfaced by the repository layer.
#[derive(Debug, PartialEq, Eq)]
pub enum Error {
    /// An update referenced an order id that is not present.
    RecordNotFound(String),
}

impl Clone for Error {
    fn clone(&self) -> (res: Self)
        ensures
            res == *self,
    {
        match self {
            Error::RecordNotFound(id) => Error::RecordNotFound(id.clone()),
        }
    }
}

} // verus!
