use eth_client::types::{BlockSelector, RpcError};
use eth_client::routing::{block_method, plan_trace};

#[test]
fn block_queries_route_by_selector() {
    assert_eq!(block_method(BlockSelector::Hash([7u8; 32])), "eth_getBlockByHash");
    assert_eq!(block_method(BlockSelector::Number(3)), "eth_getBlockByNumber");
    assert_eq!(block_method(BlockSelector::Latest), "eth_getBlockByNumber");
}

#[test]
fn trace_routes_concrete_blocks() {
    let by_hash = plan_trace(BlockSelector::Hash([9u8; 32])).unwrap();
    assert_eq!(by_hash.method, "debug_traceBlockByHash");
    assert_eq!(by_hash.config.tracer, Some("prestateTracer".to_string()));
    assert!(!by_hash.config.enable_memory);

    let by_number = plan_trace(BlockSelector::Number(100)).unwrap();
    assert_eq!(by_number.method, "debug_traceBlockByNumber");
    assert_eq!(by_number.config.tracer, Some("prestateTracer".to_string()));
}

#[test]
fn trace_refuses_the_latest_block() {
    assert_eq!(plan_trace(BlockSelector::Latest), Err(RpcError::UnsupportedSelector));
}
