//! The request planner: expands an ordered list of fetch descriptors into the
//! exact ordered list of RPC calls to submit as one batch.
//!
//! Per descriptor the emission order is fixed. Direct strategy: balance,
//! transaction count, then code if wanted, then one storage read per key in
//! key order. Proof-based strategy: one combined account-and-storage proof
//! call if an access request is present, then code if wanted. A descriptor
//! with no resolvable address contributes no calls under the direct strategy.

use vstd::prelude::*;
use crate::types::{
    BlockSelector, BlockSelectorV, FetchState, FetchStateV, H256, RpcCall, RpcCallV, Strategy,
    resolved,
};

verus! {

/// The wire method name of a call.
pub open spec fn method_name_of(c: RpcCallV) -> Seq<char> {
    match c {
        RpcCallV::GetBalance { .. } => "eth_getBalance"@,
        RpcCallV::GetTransactionCount { .. } => "eth_getTransactionCount"@,
        RpcCallV::GetCode { .. } => "eth_getCode"@,
        RpcCallV::GetStorageAt { .. } => "eth_getStorageAt"@,
        RpcCallV::GetProof { .. } => "eth_getProof"@,
    }
}

impl RpcCall {
    /// The wire method name this call is submitted under.
    pub fn method_name(&self) -> (r: String)
        ensures
            r@ == method_name_of(self.deep_view()),
    {
        match self {
            RpcCall::GetBalance { .. } => "eth_getBalance".to_owned(),
            RpcCall::GetTransactionCount { .. } => "eth_getTransactionCount".to_owned(),
            RpcCall::GetCode { .. } => "eth_getCode".to_owned(),
            RpcCall::GetStorageAt { .. } => "eth_getStorageAt".to_owned(),
            RpcCall::GetProof { .. } => "eth_getProof".to_owned(),
        }
    }
}

/// The strategy a batched fetch uses: the proof-based one exactly when asked
/// for.
pub fn strategy_for(with_proof: bool) -> (s: Strategy)
    ensures
        s == (if with_proof {
            Strategy::ProofBased
        } else {
            Strategy::Direct
        }),
{
    if with_proof {
        Strategy::ProofBased
    } else {
        Strategy::Direct
    }
}

/// The calls the direct strategy emits for one descriptor, in order.
pub open spec fn direct_calls(d: FetchStateV, blk: BlockSelectorV) -> Seq<RpcCallV> {
    match resolved(d) {
        Option::None => Seq::empty(),
        Option::Some(a) => {
            let base = seq![
                RpcCallV::GetBalance { addr: a, block: blk },
                RpcCallV::GetTransactionCount { addr: a, block: blk },
            ];
            let with_code = match d.code {
                Option::Some(ca) => base.push(RpcCallV::GetCode { addr: ca, block: blk }),
                Option::None => base,
            };
            match d.access_list {
                Option::Some(ar) => with_code + Seq::new(
                    ar.storage_keys.len(),
                    |i: int| RpcCallV::GetStorageAt {
                        addr: ar.address,
                        key: ar.storage_keys[i],
                        block: blk,
                    },
                ),
                Option::None => with_code,
            }
        },
    }
}

/// The calls the proof-based strategy emits for one descriptor, in order.
pub open spec fn proof_calls(d: FetchStateV, blk: BlockSelectorV) -> Seq<RpcCallV> {
    let first = match d.access_list {
        Option::Some(ar) => seq![
            RpcCallV::GetProof { addr: ar.address, keys: ar.storage_keys, block: blk },
        ],
        Option::None => Seq::empty(),
    };
    match d.code {
        Option::Some(ca) => first.push(RpcCallV::GetCode { addr: ca, block: blk }),
        Option::None => first,
    }
}

/// The calls one descriptor contributes under a strategy, in order.
pub open spec fn calls_for(d: FetchStateV, strategy: Strategy, blk: BlockSelectorV) -> Seq<
    RpcCallV,
> {
    match strategy {
        Strategy::Direct => direct_calls(d, blk),
        Strategy::ProofBased => proof_calls(d, blk),
    }
}

/// How many calls one descriptor contributes under a strategy. This count is
/// what the demultiplexer consumes for the descriptor, so planner and
/// demultiplexer can never disagree on it.
pub open spec fn cost(d: FetchStateV, strategy: Strategy) -> nat {
    match strategy {
        Strategy::Direct => match resolved(d) {
            Option::None => 0,
            Option::Some(_) => 2 + (if d.code is Some {
                1nat
            } else {
                0nat
            }) + (match d.access_list {
                Option::Some(ar) => ar.storage_keys.len(),
                Option::None => 0nat,
            }),
        },
        Strategy::ProofBased => (if d.access_list is Some {
            1nat
        } else {
            0nat
        }) + (if d.code is Some {
            1nat
        } else {
            0nat
        }),
    }
}

/// A descriptor's call count equals the length of its emitted call list, for
/// every block selector.
pub proof fn lemma_cost_is_calls_len(d: FetchStateV, strategy: Strategy, blk: BlockSelectorV)
    ensures
        calls_for(d, strategy, blk).len() == cost(d, strategy),
{
}

/// The whole plan: the flat concatenation of every descriptor's calls, in
/// descriptor order.
pub open spec fn plan_of(ds: Seq<FetchStateV>, strategy: Strategy, blk: BlockSelectorV) -> Seq<
    RpcCallV,
>
    decreases ds.len(),
{
    if ds.len() == 0 {
        Seq::empty()
    } else {
        calls_for(ds[0], strategy, blk) + plan_of(ds.skip(1), strategy, blk)
    }
}

/// The total call count of a descriptor list under a strategy. It does not
/// depend on the block selector.
pub open spec fn plan_len(ds: Seq<FetchStateV>, strategy: Strategy) -> nat
    decreases ds.len(),
{
    if ds.len() == 0 {
        0
    } else {
        cost(ds[0], strategy) + plan_len(ds.skip(1), strategy)
    }
}

/// The plan's length is a pure, re-derivable function of the descriptors and
/// the strategy alone: for every block selector it equals `plan_len`.
pub proof fn lemma_plan_len(ds: Seq<FetchStateV>, strategy: Strategy, blk: BlockSelectorV)
    ensures
        plan_of(ds, strategy, blk).len() == plan_len(ds, strategy),
    decreases ds.len(),
{
    if ds.len() == 0 {
    } else {
        lemma_cost_is_calls_len(ds[0], strategy, blk);
        lemma_plan_len(ds.skip(1), strategy, blk);
    }
}

/// Appending a descriptor appends exactly its calls to the plan.
pub proof fn lemma_plan_of_push(
    ds: Seq<FetchStateV>,
    d: FetchStateV,
    strategy: Strategy,
    blk: BlockSelectorV,
)
    ensures
        plan_of(ds.push(d), strategy, blk) == plan_of(ds, strategy, blk) + calls_for(
            d,
            strategy,
            blk,
        ),
    decreases ds.len(),
{
    if ds.len() == 0 {
        assert(ds.push(d).skip(1) =~= Seq::<FetchStateV>::empty());
        assert(ds.push(d)[0] == d);
        assert(plan_of(ds.push(d).skip(1), strategy, blk) == Seq::<RpcCallV>::empty());
        assert(plan_of(ds.push(d), strategy, blk) =~= plan_of(ds, strategy, blk) + calls_for(
            d,
            strategy,
            blk,
        ));
    } else {
        assert(ds.push(d).skip(1) =~= ds.skip(1).push(d));
        assert(ds.push(d)[0] == ds[0]);
        lemma_plan_of_push(ds.skip(1), d, strategy, blk);
        assert(plan_of(ds.push(d), strategy, blk) =~= plan_of(ds, strategy, blk) + calls_for(
            d,
            strategy,
            blk,
        ));
    }
}

pub(crate) fn push_call(out: &mut Vec<RpcCall>, c: RpcCall)
    ensures
        final(out).deep_view() == old(out).deep_view().push(c.deep_view()),
{
    let ghost pre = out.deep_view();
    let ghost cv = c.deep_view();
    out.push(c);
    proof {
        assert(out.deep_view() =~= pre.push(cv));
    }
}

/// An owned copy of a key list, equal to it in the model.
pub(crate) fn copy_keys(keys: &Vec<H256>) -> (r: Vec<H256>)
    ensures
        r.deep_view() == keys.deep_view(),
{
    let mut r: Vec<H256> = Vec::new();
    let mut j: usize = 0;
    while j < keys.len()
        invariant
            j <= keys.len(),
            r.deep_view() == keys.deep_view().take(j as int),
        decreases keys.len() - j,
    {
        let ghost pre = r.deep_view();
        r.push(keys[j]);
        proof {
            assert(r.deep_view() =~= pre.push(keys[j as int].deep_view()));
            assert(r.deep_view() =~= keys.deep_view().take(j as int + 1));
        }
        j += 1;
    }
    proof {
        assert(keys.deep_view().take(keys.len() as int) =~= keys.deep_view());
    }
    r
}

/// Expand the descriptors into the ordered batch of calls for `block` under
/// `strategy`. The result is exactly `plan_of` of the inputs: a pure,
/// re-derivable function of them, with no call reordered relative to its
/// descriptor's position.
pub fn plan(list: &Vec<FetchState>, block: BlockSelector, strategy: Strategy) -> (r: Vec<RpcCall>)
    ensures
        r.deep_view() == plan_of(list.deep_view(), strategy, block.deep_view()),
{
    let ghost dsv = list.deep_view();
    let ghost blkv = block.deep_view();
    let mut out: Vec<RpcCall> = Vec::new();
    let mut i: usize = 0;
    while i < list.len()
        invariant
            i <= list.len(),
            dsv == list.deep_view(),
            blkv == block.deep_view(),
            out.deep_view() == plan_of(dsv.take(i as int), strategy, blkv),
        decreases list.len() - i,
    {
        let ghost dv = dsv[i as int];
        proof {
            assert(list[i as int].deep_view() == dv);
        }
        let d = &list[i];
        let ghost before = out.deep_view();
        match strategy {
            Strategy::Direct => {
                match d.get_addr() {
                    Option::Some(addr) => {
                        push_call(&mut out, RpcCall::GetBalance { addr, block });
                        push_call(&mut out, RpcCall::GetTransactionCount { addr, block });
                        match &d.code {
                            Option::Some(ca) => {
                                push_call(&mut out, RpcCall::GetCode { addr: *ca, block });
                            },
                            Option::None => {},
                        }
                        match &d.access_list {
                            Option::Some(ar) => {
                                let ghost mid = out.deep_view();
                                let mut j: usize = 0;
                                while j < ar.storage_keys.len()
                                    invariant
                                        j <= ar.storage_keys.len(),
                                        blkv == block.deep_view(),
                                        out.deep_view() == mid + Seq::new(
                                            j as nat,
                                            |k: int| RpcCallV::GetStorageAt {
                                                addr: ar.address.deep_view(),
                                                key: ar.storage_keys.deep_view()[k],
                                                block: blkv,
                                            },
                                        ),
                                    decreases ar.storage_keys.len() - j,
                                {
                                    push_call(
                                        &mut out,
                                        RpcCall::GetStorageAt {
                                            addr: ar.address,
                                            key: ar.storage_keys[j],
                                            block,
                                        },
                                    );
                                    proof {
                                        assert(out.deep_view() =~= mid + Seq::new(
                                            j as nat + 1,
                                            |k: int| RpcCallV::GetStorageAt {
                                                addr: ar.address.deep_view(),
                                                key: ar.storage_keys.deep_view()[k],
                                                block: blkv,
                                            },
                                        ));
                                    }
                                    j += 1;
                                }
                                proof {
                                    assert(out.deep_view() =~= before + direct_calls(dv, blkv));
                                }
                            },
                            Option::None => {
                                proof {
                                    assert(out.deep_view() =~= before + direct_calls(dv, blkv));
                                }
                            },
                        }
                    },
                    Option::None => {
                        proof {
                            assert(out.deep_view() =~= before + direct_calls(dv, blkv));
                        }
                    },
                }
            },
            Strategy::ProofBased => {
                match &d.access_list {
                    Option::Some(ar) => {
                        let keys = copy_keys(&ar.storage_keys);
                        push_call(
                            &mut out,
                            RpcCall::GetProof { addr: ar.address, keys, block },
                        );
                    },
                    Option::None => {},
                }
                match &d.code {
                    Option::Some(ca) => {
                        push_call(&mut out, RpcCall::GetCode { addr: *ca, block });
                    },
                    Option::None => {},
                }
                proof {
                    assert(out.deep_view() =~= before + proof_calls(dv, blkv));
                }
            },
        }
        proof {
            assert(dsv.take(i as int + 1) =~= dsv.take(i as int).push(dv));
            lemma_plan_of_push(dsv.take(i as int), dv, strategy, blkv);
        }
        i += 1;
    }
    proof {
        assert(dsv.take(list.len() as int) =~= dsv);
    }
    out
}

} // verus!
