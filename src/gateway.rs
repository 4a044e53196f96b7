//! The block gateway and the services built on it.
use vstd::prelude::*;
use vstd::string::StringExecFns;
use crate::block::Block;
use crate::extract::{extract, raw_events};
use crate::raw::RawBlock;

verus! {

/// The mint whose transfers are tracked unless another is configured.
pub const USDC_MINT: &'static str = "EPjFWdd5AufqSSqeM2qN1xzybapC8G4wEGGkZwyTDt1v";

/// The RPC endpoint of a cluster.
pub open spec fn rpc_url_of(cluster: Seq<char>) -> Seq<char> {
    "https://api."@ + cluster + ".solana.com"@
}

/// The websocket endpoint of a cluster.
pub open spec fn websocket_url_of(cluster: Seq<char>) -> Seq<char> {
    "wss://api."@ + cluster + ".solana.com/"@
}

/// Builds the RPC endpoint of a cluster.
pub fn rpc_url(cluster: &str) -> (r: String)
    ensures
        r@ == rpc_url_of(cluster@),
{
    "https://api.".to_owned().concat(cluster).concat(".solana.com")
}

/// Builds the websocket endpoint of a cluster.
pub fn websocket_url(cluster: &str) -> (r: String)
    ensures
        r@ == websocket_url_of(cluster@),
{
    "wss://api.".to_owned().concat(cluster).concat(".solana.com/")
}

/// Where blocks are fetched and slot updates streamed from, and which mint
/// is tracked.
pub struct BlockGatewayImpl {
    pub rpc_url: String,
    pub websocket_url: String,
    pub mint: String,
}

impl Clone for BlockGatewayImpl {
    fn clone(&self) -> (r: Self)
        ensures
            r == *self,
    {
        BlockGatewayImpl {
            rpc_url: self.rpc_url.clone(),
            websocket_url: self.websocket_url.clone(),
            mint: self.mint.clone(),
        }
    }
}

impl BlockGatewayImpl {
    /// A gateway to a cluster that tracks the USDC mint.
    pub fn new(cluster: &str) -> (r: Self)
        ensures
            r.rpc_url@ == rpc_url_of(cluster@),
            r.websocket_url@ == websocket_url_of(cluster@),
            r.mint@ == USDC_MINT@,
    {
        BlockGatewayImpl::with_mint(cluster, USDC_MINT)
    }

    /// A gateway to a cluster that tracks the given mint.
    pub fn with_mint(cluster: &str, mint: &str) -> (r: Self)
        ensures
            r.rpc_url@ == rpc_url_of(cluster@),
            r.websocket_url@ == websocket_url_of(cluster@),
            r.mint@ == mint@,
    {
        BlockGatewayImpl {
            rpc_url: rpc_url(cluster),
            websocket_url: websocket_url(cluster),
            mint: mint.to_owned(),
        }
    }

    /// The block of a slot, from what the node returned for it.
    pub fn get_block(&self, slot: u64, raw: &RawBlock) -> (r: Block)
        ensures
            r.slot == slot,
            r.blockhash == raw.blockhash,
            r.transactions@ == raw_events(self.mint, *raw),
    {
        extract(&self.mint, slot, raw)
    }

    /// The block of a slot from the outcome of fetching it: the extracted
    /// block, or the transport failure with the slot it was for.
    pub fn block_from_fetch(&self, slot: u64, fetched: Result<RawBlock, String>) -> (r: Result<
        Block,
        FetchError,
    >)
        ensures
            match (fetched, r) {
                (Ok(raw), Ok(b)) => b.slot == slot && b.blockhash == raw.blockhash
                    && b.transactions@ == raw_events(self.mint, raw),
                (Err(m), Err(e)) => e.slot == slot && e.message == m,
                _ => false,
            },
    {
        match fetched {
            Ok(raw) => Ok(self.get_block(slot, &raw)),
            Err(message) => Err(FetchError { slot, message }),
        }
    }
}

/// A block that could not be fetched: the slot asked for and the node's
/// error text.
#[derive(Debug)]
pub struct FetchError {
    pub slot: u64,
    pub message: String,
}

/// Serves one-shot block lookups through a gateway.
pub struct BlockService<G> {
    pub block_gateway: G,
}

impl<G> BlockService<G> {
    pub fn new(block_gateway: G) -> (r: Self)
        ensures
            r.block_gateway == block_gateway,
    {
        BlockService { block_gateway }
    }
}

/// Follows the blocks of a cluster as they are finalized.
pub struct TrackerService<G> {
    pub cluster: String,
    pub block_gateway: G,
}

impl<G> TrackerService<G> {
    pub fn new(cluster: &str, block_gateway: G) -> (r: Self)
        ensures
            r.cluster@ == cluster@,
            r.block_gateway == block_gateway,
    {
        TrackerService { cluster: cluster.to_owned(), block_gateway }
    }

    /// The websocket endpoint of the tracked cluster.
    pub fn websocket_url(&self) -> (r: String)
        ensures
            r@ == websocket_url_of(self.cluster@),
    {
        websocket_url(self.cluster.as_str())
    }
}

/// A source of the latest slot.
pub trait SlotGateway {
    fn get_latest(&self) -> Result<u64, String>;
}

} // verus!
