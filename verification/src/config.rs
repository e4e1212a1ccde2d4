//! Static configuration of a deployment: the upstream host, the first
//! block to index, and the markets to serve.
use vstd::prelude::*;

verus! {

/// One market to index: its id (the 32-byte market hash, hex-encoded)
/// and a human-readable name.
#[derive(Debug)]
pub struct MarketInfo {
    pub id: String,
    pub name: String,
}

impl Clone for MarketInfo {
    fn clone(&self) -> (res: Self)
        ensures
            res == *self,
    {
        MarketInfo { id: self.id.clone(), name: self.name.clone() }
    }
}

/// The deployment configuration: upstream endpoint, the block catch-up
/// starts from when a market has no cursor yet, and the markets.
#[derive(Debug)]
pub struct Config {
    pub pangea_host: String,
    pub pangea_start_block: i64,
    pub markets: Vec<MarketInfo>,
}

impl Config {
    /// The block a market's catch-up starts from: its stored cursor, or
    /// the configured start block when none was ever written.
    pub fn start_block(&self, stored: Option<i64>) -> (r: i64)
        ensures
            r == (match stored {
                Some(b) => b,
                None => self.pangea_start_block,
            }),
    {
        match stored {
            Some(b) => b,
            None => self.pangea_start_block,
        }
    }
}

} // verus!
