use eth_client::types::{
    AccessRequest, AccountResult, BlockSelector, FetchState, RawValue, RpcCall, RpcError,
    StorageResult, Strategy,
};
use eth_client::planner::{plan, strategy_for};
use eth_client::demux::demux;

fn q(n: u64) -> [u8; 32] {
    let mut out = [0u8; 32];
    out[24..32].copy_from_slice(&n.to_be_bytes());
    out
}

fn v32(n: u8) -> Vec<u8> {
    let mut out = vec![0u8; 32];
    out[31] = n;
    out
}

fn descriptor_code(addr: [u8; 20]) -> FetchState {
    FetchState { code: Some(addr), access_list: None }
}

fn descriptor_storage(addr: [u8; 20], keys: Vec<[u8; 32]>) -> FetchState {
    FetchState { code: None, access_list: Some(AccessRequest { address: addr, storage_keys: keys }) }
}

#[test]
fn concrete_direct_scenario() {
    let a = [0xAAu8; 20];
    let b = [0xBBu8; 20];
    let k1 = [1u8; 32];
    let k2 = [2u8; 32];
    let list = vec![descriptor_code(a), descriptor_storage(b, vec![k1, k2])];
    let block = BlockSelector::Number(7);

    let calls = plan(&list, block, Strategy::Direct);
    assert_eq!(calls.len(), 7);
    assert_eq!(calls[0], RpcCall::GetBalance { addr: a, block });
    assert_eq!(calls[1], RpcCall::GetTransactionCount { addr: a, block });
    assert_eq!(calls[2], RpcCall::GetCode { addr: a, block });
    assert_eq!(calls[3], RpcCall::GetBalance { addr: b, block });
    assert_eq!(calls[4], RpcCall::GetTransactionCount { addr: b, block });
    assert_eq!(calls[5], RpcCall::GetStorageAt { addr: b, key: k1, block });
    assert_eq!(calls[6], RpcCall::GetStorageAt { addr: b, key: k2, block });
    assert_eq!(calls[0].method_name(), "eth_getBalance");
    assert_eq!(calls[6].method_name(), "eth_getStorageAt");

    let responses = vec![
        RawValue::Quantity(q(100)),
        RawValue::Quantity(q(5)),
        RawValue::Data(vec![0x60, 0x80]),
        RawValue::Quantity(q(42)),
        RawValue::Quantity(q(1)),
        RawValue::Data(v32(9)),
        RawValue::Data(v32(8)),
    ];
    let out = demux(responses, &list, Strategy::Direct).unwrap();
    assert_eq!(out.len(), 2);

    assert_eq!(out[0].code, Some(vec![0x60, 0x80]));
    let acc0 = out[0].acc.as_ref().unwrap();
    assert_eq!(acc0.address, a);
    assert_eq!(acc0.balance, q(100));
    assert_eq!(acc0.nonce, 5);
    assert!(acc0.storage_proof.is_empty());

    assert!(out[1].code.is_none());
    let acc1 = out[1].acc.as_ref().unwrap();
    assert_eq!(acc1.address, b);
    assert_eq!(acc1.balance, q(42));
    assert_eq!(acc1.nonce, 1);
    assert_eq!(acc1.storage_proof.len(), 2);
    assert_eq!(acc1.storage_proof[0].key, k1);
    assert_eq!(acc1.storage_proof[0].value, v32(9));
    assert!(acc1.storage_proof[0].proof.is_empty());
    assert_eq!(acc1.storage_proof[1].key, k2);
    assert_eq!(acc1.storage_proof[1].value, v32(8));
}

#[test]
fn plan_is_deterministic() {
    let list = vec![
        descriptor_code([3u8; 20]),
        FetchState { code: None, access_list: None },
        descriptor_storage([4u8; 20], vec![[9u8; 32]]),
    ];
    let block = BlockSelector::Latest;
    let first = plan(&list, block, Strategy::Direct);
    let second = plan(&list, block, Strategy::Direct);
    assert_eq!(first, second);
    let first_proof = plan(&list, block, Strategy::ProofBased);
    let second_proof = plan(&list, block, Strategy::ProofBased);
    assert_eq!(first_proof, second_proof);
}

#[test]
fn unresolvable_descriptor_is_skipped() {
    let a = [0xAAu8; 20];
    let b = [0xBBu8; 20];
    let empty = FetchState { code: None, access_list: None };
    let with_gap = vec![descriptor_code(a), empty, descriptor_storage(b, vec![[5u8; 32]])];
    let without_gap = vec![descriptor_code(a), descriptor_storage(b, vec![[5u8; 32]])];
    let block = BlockSelector::Number(1);

    let calls_gap = plan(&with_gap, block, Strategy::Direct);
    let calls_plain = plan(&without_gap, block, Strategy::Direct);
    assert_eq!(calls_gap, calls_plain);

    let responses = vec![
        RawValue::Quantity(q(10)),
        RawValue::Quantity(q(2)),
        RawValue::Data(vec![]),
        RawValue::Quantity(q(20)),
        RawValue::Quantity(q(3)),
        RawValue::Data(v32(1)),
    ];
    let out_gap = demux(responses.clone(), &with_gap, Strategy::Direct).unwrap();
    let out_plain = demux(responses, &without_gap, Strategy::Direct).unwrap();
    assert_eq!(out_gap, out_plain);
    assert_eq!(out_gap.len(), 2);
}

#[test]
fn optional_field_gating_changes_call_count() {
    let a = [0x11u8; 20];
    let keys = vec![[7u8; 32], [8u8; 32], [9u8; 32]];
    let block = BlockSelector::Latest;

    let bare = vec![descriptor_code(a)];
    let with_access = vec![FetchState {
        code: Some(a),
        access_list: Some(AccessRequest { address: a, storage_keys: keys.clone() }),
    }];
    let access_only = vec![descriptor_storage(a, keys)];

    assert_eq!(plan(&bare, block, Strategy::Direct).len(), 3);
    assert_eq!(plan(&access_only, block, Strategy::Direct).len(), 5);
    assert_eq!(plan(&with_access, block, Strategy::Direct).len(), 6);

    assert_eq!(plan(&bare, block, Strategy::ProofBased).len(), 1);
    assert_eq!(plan(&access_only, block, Strategy::ProofBased).len(), 1);
    assert_eq!(plan(&with_access, block, Strategy::ProofBased).len(), 2);
}

#[test]
fn proof_strategy_round_trip() {
    let a = [0xAAu8; 20];
    let b = [0xBBu8; 20];
    let k1 = [1u8; 32];
    let list = vec![descriptor_code(a), descriptor_storage(b, vec![k1])];
    let block = BlockSelector::Hash([0xCCu8; 32]);

    let calls = plan(&list, block, Strategy::ProofBased);
    assert_eq!(calls.len(), 2);
    assert_eq!(calls[0], RpcCall::GetCode { addr: a, block });
    assert_eq!(calls[1], RpcCall::GetProof { addr: b, keys: vec![k1], block });

    let account = AccountResult {
        address: b,
        balance: q(77),
        nonce: 6,
        storage_proof: vec![StorageResult { key: k1, value: v32(4), proof: vec![vec![0xDE, 0xAD]] }],
    };
    let responses = vec![RawValue::Data(vec![0x01]), RawValue::Account(account.clone())];
    let out = demux(responses, &list, Strategy::ProofBased).unwrap();
    assert_eq!(out.len(), 2);
    assert_eq!(out[0].code, Some(vec![0x01]));
    assert!(out[0].acc.is_none());
    assert!(out[1].code.is_none());
    assert_eq!(out[1].acc, Some(account));
}

#[test]
fn strategies_agree_on_core_fields() {
    let a = [0x42u8; 20];
    let k1 = [3u8; 32];
    let d = FetchState {
        code: Some(a),
        access_list: Some(AccessRequest { address: a, storage_keys: vec![k1] }),
    };
    let list = vec![d];
    let block = BlockSelector::Number(11);

    let direct_responses = vec![
        RawValue::Quantity(q(1000)),
        RawValue::Quantity(q(12)),
        RawValue::Data(vec![0xFE]),
        RawValue::Data(v32(5)),
    ];
    let direct_out = demux(direct_responses, &list, Strategy::Direct).unwrap();

    let account = AccountResult {
        address: a,
        balance: q(1000),
        nonce: 12,
        storage_proof: vec![StorageResult { key: k1, value: v32(5), proof: vec![vec![0xAB]] }],
    };
    let proof_responses = vec![RawValue::Account(account), RawValue::Data(vec![0xFE])];
    let proof_out = demux(proof_responses, &list, Strategy::ProofBased).unwrap();

    assert_eq!(direct_out.len(), 1);
    assert_eq!(proof_out.len(), 1);
    let da = direct_out[0].acc.as_ref().unwrap();
    let pa = proof_out[0].acc.as_ref().unwrap();
    assert_eq!(da.balance, pa.balance);
    assert_eq!(da.nonce, pa.nonce);
    assert_eq!(direct_out[0].code, proof_out[0].code);
    // only the proof field differs
    assert!(da.storage_proof[0].proof.is_empty());
    assert!(!pa.storage_proof[0].proof.is_empty());
}

#[test]
fn short_batch_returns_truncated_results() {
    let a = [0xAAu8; 20];
    let b = [0xBBu8; 20];
    let list = vec![descriptor_code(a), descriptor_storage(b, vec![[1u8; 32], [2u8; 32]])];
    let block = BlockSelector::Number(2);
    assert_eq!(plan(&list, block, Strategy::Direct).len(), 7);

    // covers the first descriptor (3 calls) and only part of the second
    let responses = vec![
        RawValue::Quantity(q(1)),
        RawValue::Quantity(q(2)),
        RawValue::Data(vec![]),
        RawValue::Quantity(q(3)),
        RawValue::Quantity(q(4)),
        RawValue::Data(v32(1)),
    ];
    let out = demux(responses, &list, Strategy::Direct).unwrap();
    assert_eq!(out.len(), 1);
    assert_eq!(out[0].acc.as_ref().unwrap().address, a);

    // not even the first descriptor's group is complete
    let out2 = demux(vec![RawValue::Quantity(q(1))], &list, Strategy::Direct).unwrap();
    assert!(out2.is_empty());
}

#[test]
fn decode_error_names_the_operation() {
    let a = [0xAAu8; 20];
    let list = vec![descriptor_code(a)];
    let responses = vec![
        RawValue::Data(vec![1, 2, 3]),
        RawValue::Quantity(q(0)),
        RawValue::Data(vec![]),
    ];
    let err = demux(responses, &list, Strategy::Direct).unwrap_err();
    assert_eq!(
        err,
        RpcError::Decode { op: "eth_getBalance".to_string(), got: RawValue::Data(vec![1, 2, 3]) },
    );
}

#[test]
fn oversized_nonce_is_a_decode_error() {
    let a = [0xAAu8; 20];
    let list = vec![descriptor_code(a)];
    let mut big = [0u8; 32];
    big[0] = 1;
    let responses = vec![
        RawValue::Quantity(q(5)),
        RawValue::Quantity(big),
        RawValue::Data(vec![]),
    ];
    let err = demux(responses, &list, Strategy::Direct).unwrap_err();
    assert_eq!(
        err,
        RpcError::Decode {
            op: "eth_getTransactionCount".to_string(),
            got: RawValue::Quantity(big),
        },
    );
}

#[test]
fn wrong_storage_shape_is_a_decode_error() {
    let b = [0xBBu8; 20];
    let list = vec![descriptor_storage(b, vec![[1u8; 32]])];
    let responses = vec![
        RawValue::Quantity(q(5)),
        RawValue::Quantity(q(1)),
        RawValue::Data(vec![0x01]),  // not 32 bytes
    ];
    let err = demux(responses, &list, Strategy::Direct).unwrap_err();
    assert_eq!(
        err,
        RpcError::Decode { op: "eth_getStorageAt".to_string(), got: RawValue::Data(vec![0x01]) },
    );
}

#[test]
fn proof_call_demands_an_account() {
    let b = [0xBBu8; 20];
    let list = vec![descriptor_storage(b, vec![[1u8; 32]])];
    let responses = vec![RawValue::Quantity(q(5))];
    let err = demux(responses, &list, Strategy::ProofBased).unwrap_err();
    assert_eq!(
        err,
        RpcError::Decode { op: "eth_getProof".to_string(), got: RawValue::Quantity(q(5)) },
    );
}

#[test]
fn proof_strategy_skips_unresolvable_descriptors() {
    let empty = FetchState { code: None, access_list: None };
    let list = vec![empty.clone(), descriptor_code([1u8; 20]), empty];
    let responses = vec![RawValue::Data(vec![0x02])];
    let out = demux(responses, &list, Strategy::ProofBased).unwrap();
    assert_eq!(out.len(), 1);
    assert_eq!(out[0].code, Some(vec![0x02]));
    assert!(out[0].acc.is_none());
}

#[test]
fn get_addr_resolves_code_then_access() {
    let a = [1u8; 20];
    let b = [2u8; 20];
    let both = FetchState {
        code: Some(a),
        access_list: Some(AccessRequest { address: b, storage_keys: vec![[0u8; 32]] }),
    };
    assert_eq!(both.get_addr(), Some(a));
    assert_eq!(descriptor_storage(b, vec![[0u8; 32]]).get_addr(), Some(b));
    assert_eq!(FetchState { code: None, access_list: None }.get_addr(), None);
}

#[test]
fn strategy_selection_follows_the_flag() {
    assert_eq!(strategy_for(false), Strategy::Direct);
    assert_eq!(strategy_for(true), Strategy::ProofBased);
}

#[test]
fn duplicate_descriptors_are_kept_in_order() {
    let a = [0x77u8; 20];
    let d = descriptor_code(a);
    let list = vec![d.clone(), d];
    let block = BlockSelector::Number(4);
    let calls = plan(&list, block, Strategy::Direct);
    assert_eq!(calls.len(), 6);
    assert_eq!(calls[0], RpcCall::GetBalance { addr: a, block });
    assert_eq!(calls[3], RpcCall::GetBalance { addr: a, block });

    let responses = vec![
        RawValue::Quantity(q(1)),
        RawValue::Quantity(q(2)),
        RawValue::Data(vec![0x01]),
        RawValue::Quantity(q(3)),
        RawValue::Quantity(q(4)),
        RawValue::Data(vec![0x02]),
    ];
    let out = demux(responses, &list, Strategy::Direct).unwrap();
    assert_eq!(out.len(), 2);
    assert_eq!(out[0].code, Some(vec![0x01]));
    assert_eq!(out[0].acc.as_ref().unwrap().nonce, 2);
    assert_eq!(out[1].code, Some(vec![0x02]));
    assert_eq!(out[1].acc.as_ref().unwrap().nonce, 4);
}

#[test]
fn empty_inputs_give_empty_outputs() {
    let list: Vec<FetchState> = Vec::new();
    let block = BlockSelector::Latest;
    assert!(plan(&list, block, Strategy::Direct).is_empty());
    assert!(plan(&list, block, Strategy::ProofBased).is_empty());
    assert!(demux(Vec::new(), &list, Strategy::Direct).unwrap().is_empty());
    assert!(demux(Vec::new(), &list, Strategy::ProofBased).unwrap().is_empty());
}
