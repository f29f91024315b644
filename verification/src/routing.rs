//! Block selector resolution for the single-call operations: each selector
//! routes to a different wire method, and the symbolic latest block is
//! refused where a concrete block is required.

use vstd::prelude::*;
use crate::types::{BlockSelector, BlockSelectorV, RpcError};

verus! {

/// Tracer configuration carried by a block trace call.
#[derive(Debug, Clone, PartialEq)]
pub struct TraceConfig {
    pub tracer: Option<String>,
    pub enable_memory: bool,
}

/// A fully-routed block prestate trace call: the wire method and its tracer
/// configuration.
#[derive(Debug, Clone, PartialEq)]
pub struct TraceCall {
    pub method: String,
    pub config: TraceConfig,
}

/// The wire method a block query routes to: by hash, or by number (the
/// symbolic latest block is sent as a named tag of the by-number method).
pub fn block_method(selector: BlockSelector) -> (r: String)
    ensures
        selector.deep_view() is Hash ==> r@ == "eth_getBlockByHash"@,
        !(selector.deep_view() is Hash) ==> r@ == "eth_getBlockByNumber"@,
{
    match selector {
        BlockSelector::Hash(_) => "eth_getBlockByHash".to_owned(),
        BlockSelector::Number(_) => "eth_getBlockByNumber".to_owned(),
        BlockSelector::Latest => "eth_getBlockByNumber".to_owned(),
    }
}

/// Route a block prestate trace. A concrete hash or number each selects its
/// wire method, with the prestate tracer enabled and memory capture off; the
/// symbolic latest block is refused, and only it: callers must resolve it to
/// a concrete block before tracing.
pub fn plan_trace(block: BlockSelector) -> (r: Result<TraceCall, RpcError>)
    ensures
        match r {
            Ok(tc) => {
                &&& !(block.deep_view() is Latest)
                &&& block.deep_view() is Hash ==> tc.method@ == "debug_traceBlockByHash"@
                &&& block.deep_view() is Number ==> tc.method@ == "debug_traceBlockByNumber"@
                &&& tc.config.tracer matches Option::Some(t) && t@ == "prestateTracer"@
                &&& tc.config.enable_memory == false
            },
            Err(e) => block.deep_view() is Latest && e == RpcError::UnsupportedSelector,
        },
{
    let config = TraceConfig { tracer: Option::Some("prestateTracer".to_owned()), enable_memory: false };
    match block {
        BlockSelector::Hash(_) => Ok(
            TraceCall { method: "debug_traceBlockByHash".to_owned(), config },
        ),
        BlockSelector::Number(_) => Ok(
            TraceCall { method: "debug_traceBlockByNumber".to_owned(), config },
        ),
        BlockSelector::Latest => Err(RpcError::UnsupportedSelector),
    }
}

} // verus!
