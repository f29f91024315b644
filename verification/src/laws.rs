//! The laws of the planner/demultiplexer pair, stated over the spec model
//! and proved once and for all: determinism of planning, the gating of
//! optional fields, the skip of unresolvable descriptors, the round trip
//! through a well-shaped batch, and the short-batch truncation.

use vstd::prelude::*;
use crate::types::{
    AccessRequestV, AccountResultV, BlockSelectorV, FetchStateResultV, FetchStateV, RawValueV,
    RpcCallV, Strategy, resolved,
};
use crate::planner::{calls_for, cost, lemma_cost_is_calls_len, plan_of};
use crate::demux::{decode_one, demux_of, fits_u64, nonce_of, storage_results};

verus! {

/// Planning is deterministic: on equal descriptor lists, equal strategies and
/// equal block selectors, the plan is the same ordered call list, run after
/// run.
pub proof fn lemma_plan_deterministic(
    ds1: Seq<FetchStateV>,
    ds2: Seq<FetchStateV>,
    strategy: Strategy,
    blk1: BlockSelectorV,
    blk2: BlockSelectorV,
)
    requires
        ds1 == ds2,
        blk1 == blk2,
    ensures
        plan_of(ds1, strategy, blk1) == plan_of(ds2, strategy, blk2),
{
}

/// A descriptor with no resolvable address contributes no calls under either
/// strategy.
pub proof fn lemma_unresolvable_zero_cost(d: FetchStateV, strategy: Strategy, blk: BlockSelectorV)
    requires
        resolved(d) is None,
    ensures
        calls_for(d, strategy, blk) == Seq::<RpcCallV>::empty(),
        cost(d, strategy) == 0,
{
    assert(calls_for(d, strategy, blk) =~= Seq::<RpcCallV>::empty());
}

/// Toggling the code request changes a descriptor's call count by exactly
/// one, under either strategy, as long as the descriptor stays resolvable
/// without it.
pub proof fn lemma_code_gating(d_with: FetchStateV, d_without: FetchStateV, strategy: Strategy)
    requires
        d_with.access_list == d_without.access_list,
        d_with.code is Some,
        d_without.code is None,
        resolved(d_without) is Some,
    ensures
        cost(d_with, strategy) == cost(d_without, strategy) + 1,
{
}

/// Adding an access request changes a descriptor's call count by exactly the
/// number of its keys under the direct strategy, and by exactly one under the
/// proof-based strategy, for a descriptor that is resolvable without it.
pub proof fn lemma_access_gating(
    d_with: FetchStateV,
    d_without: FetchStateV,
    ar: AccessRequestV,
)
    requires
        d_with.code == d_without.code,
        d_with.access_list == Option::Some(ar),
        d_without.access_list is None,
        d_without.code is Some,
    ensures
        cost(d_with, Strategy::Direct) == cost(d_without, Strategy::Direct)
            + ar.storage_keys.len(),
        cost(d_with, Strategy::ProofBased) == cost(d_without, Strategy::ProofBased) + 1,
{
}

/// Inserting a descriptor with no resolvable address anywhere in the list
/// changes neither the plan nor the demultiplexed output, under either
/// strategy: it is skipped whole and cannot shift the alignment of the
/// descriptors around it.
pub proof fn lemma_skip_unresolvable(
    pre: Seq<FetchStateV>,
    d: FetchStateV,
    post: Seq<FetchStateV>,
    strategy: Strategy,
    blk: BlockSelectorV,
    raws: Seq<RawValueV>,
)
    requires
        resolved(d) is None,
    ensures
        plan_of(pre + seq![d] + post, strategy, blk) == plan_of(pre + post, strategy, blk),
        demux_of(pre + seq![d] + post, raws, strategy) == demux_of(pre + post, raws, strategy),
    decreases pre.len(),
{
    lemma_unresolvable_zero_cost(d, strategy, blk);
    if pre.len() == 0 {
        assert(pre + seq![d] + post =~= seq![d] + post);
        assert(pre + post =~= post);
        assert((seq![d] + post)[0] == d);
        assert((seq![d] + post).skip(1) =~= post);
        assert(calls_for(d, strategy, blk) + plan_of(post, strategy, blk) =~= plan_of(
            post,
            strategy,
            blk,
        ));
        assert(raws.skip(0) =~= raws);
        assert(demux_of(seq![d] + post, raws, strategy) == demux_of(post, raws, strategy));
    } else {
        let whole = pre + seq![d] + post;
        let slim = pre + post;
        assert(whole[0] == pre[0]);
        assert(slim[0] == pre[0]);
        assert(whole.skip(1) =~= pre.skip(1) + seq![d] + post);
        assert(slim.skip(1) =~= pre.skip(1) + post);
        let k = cost(pre[0], strategy) as int;
        lemma_skip_unresolvable(pre.skip(1), d, post, strategy, blk, raws.skip(k));
        assert(plan_of(whole, strategy, blk) == calls_for(pre[0], strategy, blk) + plan_of(
            whole.skip(1),
            strategy,
            blk,
        ));
        assert(plan_of(slim, strategy, blk) == calls_for(pre[0], strategy, blk) + plan_of(
            slim.skip(1),
            strategy,
            blk,
        ));
    }
}

/// Whether a raw value has the shape one planned call demands of its
/// response.
pub open spec fn well_shaped(c: RpcCallV, r: RawValueV) -> bool {
    match c {
        RpcCallV::GetBalance { .. } => r is Quantity,
        RpcCallV::GetTransactionCount { .. } => r matches RawValueV::Quantity(q) && fits_u64(q),
        RpcCallV::GetCode { .. } => r is Data,
        RpcCallV::GetStorageAt { .. } => r matches RawValueV::Data(v) && v.len() == 32,
        RpcCallV::GetProof { .. } => r is Account,
    }
}

/// Whether a descriptor yields an output entry: exactly the resolvable ones
/// do, under either strategy.
pub open spec fn contributes(d: FetchStateV) -> bool {
    resolved(d) is Some
}

/// How many output entries a full walk of the descriptors yields: one per
/// resolvable descriptor.
pub open spec fn out_count(ds: Seq<FetchStateV>) -> nat
    decreases ds.len(),
{
    if ds.len() == 0 {
        0
    } else {
        (if contributes(ds[0]) {
            1nat
        } else {
            0nat
        }) + out_count(ds.skip(1))
    }
}

/// The descriptors that yield an output entry, in order: the j-th output of
/// a full walk belongs to the j-th resolvable descriptor.
pub open spec fn kept(ds: Seq<FetchStateV>) -> Seq<FetchStateV>
    decreases ds.len(),
{
    if ds.len() == 0 {
        Seq::empty()
    } else if contributes(ds[0]) {
        seq![ds[0]] + kept(ds.skip(1))
    } else {
        kept(ds.skip(1))
    }
}

/// How an output entry's fields follow its descriptor: bytecode is present
/// exactly when it was wanted; the account part is always present under the
/// direct strategy — carrying the descriptor's resolved address — and
/// present exactly when an access request was made under the proof-based
/// one.
pub open spec fn entry_follows(d: FetchStateV, r: FetchStateResultV, strategy: Strategy) -> bool {
    &&& (r.code is Some) == (d.code is Some)
    &&& (r.acc is Some) == (match strategy {
        Strategy::Direct => true,
        Strategy::ProofBased => d.access_list is Some,
    })
    &&& strategy is Direct ==> (r.acc matches Option::Some(acc) && Option::Some(acc.address)
        == resolved(d))
}

proof fn lemma_storage_decode_ok(keys: Seq<Seq<u8>>, seg: Seq<RawValueV>)
    requires
        seg.len() >= keys.len(),
        forall|i: int|
            0 <= i < keys.len() ==> (#[trigger] seg[i] matches RawValueV::Data(v) && v.len()
                == 32),
    ensures
        storage_results(keys, seg) is Ok,
    decreases keys.len(),
{
    if keys.len() == 0 {
    } else {
        assert(seg[0] matches RawValueV::Data(v) && v.len() == 32);
        lemma_storage_decode_ok(keys.skip(1), seg.skip(1));
    }
}

/// A well-shaped segment of a descriptor's own calls decodes without error,
/// into a result whose fields follow the descriptor (`entry_follows`).
pub proof fn lemma_decode_one_ok(
    d: FetchStateV,
    strategy: Strategy,
    blk: BlockSelectorV,
    seg: Seq<RawValueV>,
)
    requires
        seg.len() == cost(d, strategy),
        forall|i: int|
            0 <= i < seg.len() ==> well_shaped(#[trigger] calls_for(d, strategy, blk)[i], seg[i]),
    ensures
        decode_one(d, strategy, seg) is Ok,
        (decode_one(d, strategy, seg)->Ok_0 is Some) == contributes(d),
        decode_one(d, strategy, seg)->Ok_0 matches Option::Some(r) ==> entry_follows(
            d,
            r,
            strategy,
        ),
{
    lemma_cost_is_calls_len(d, strategy, blk);
    match strategy {
        Strategy::Direct => {
            match resolved(d) {
                Option::None => {},
                Option::Some(a) => {
                    let calls = calls_for(d, strategy, blk);
                    assert(well_shaped(calls[0], seg[0]));
                    assert(well_shaped(calls[1], seg[1]));
                    let base: int = if d.code is Some {
                        3
                    } else {
                        2
                    };
                    if d.code is Some {
                        assert(well_shaped(calls[2], seg[2]));
                    }
                    match d.access_list {
                        Option::Some(ar) => {
                            assert forall|j: int| 0 <= j < ar.storage_keys.len() implies
                                #[trigger] seg.skip(base)[j] matches RawValueV::Data(v)
                                    && v.len() == 32 by {
                                assert(seg.skip(base)[j] == seg[base + j]);
                                assert(well_shaped(calls[base + j], seg[base + j]));
                            }
                            lemma_storage_decode_ok(ar.storage_keys, seg.skip(base));
                        },
                        Option::None => {
                            lemma_storage_decode_ok(Seq::empty(), seg.skip(base));
                        },
                    }
                },
            }
        },
        Strategy::ProofBased => {
            let calls = calls_for(d, strategy, blk);
            if d.access_list is Some {
                assert(well_shaped(calls[0], seg[0]));
                if d.code is Some {
                    assert(well_shaped(calls[1], seg[1]));
                }
            } else {
                if d.code is Some {
                    assert(well_shaped(calls[0], seg[0]));
                }
            }
        },
    }
}

/// The round trip: when the transport answers a plan with one well-shaped
/// value per planned call, in order, the demultiplexer succeeds and
/// reconstructs exactly one result per descriptor with a resolvable address,
/// in descriptor order, each with its fields populated as its descriptor and
/// the strategy demand.
pub proof fn lemma_round_trip(
    ds: Seq<FetchStateV>,
    strategy: Strategy,
    blk: BlockSelectorV,
    raws: Seq<RawValueV>,
)
    requires
        raws.len() == plan_of(ds, strategy, blk).len(),
        forall|i: int|
            0 <= i < raws.len() ==> well_shaped(#[trigger] plan_of(ds, strategy, blk)[i], raws[i]),
    ensures
        demux_of(ds, raws, strategy) is Ok,
        demux_of(ds, raws, strategy)->Ok_0.len() == out_count(ds),
        ({
            let out = demux_of(ds, raws, strategy)->Ok_0;
            &&& out.len() == kept(ds).len()
            &&& forall|j: int|
                0 <= j < out.len() ==> entry_follows(kept(ds)[j], #[trigger] out[j], strategy)
        }),
    decreases ds.len(),
{
    if ds.len() == 0 {
    } else {
        let k = cost(ds[0], strategy) as int;
        lemma_cost_is_calls_len(ds[0], strategy, blk);
        let calls = calls_for(ds[0], strategy, blk);
        let plan = plan_of(ds, strategy, blk);
        let rest_plan = plan_of(ds.skip(1), strategy, blk);
        assert(plan == calls + rest_plan);
        assert(raws.len() >= k);
        assert forall|i: int| 0 <= i < k implies well_shaped(
            #[trigger] calls_for(ds[0], strategy, blk)[i],
            raws.take(k)[i],
        ) by {
            assert(plan[i] == calls[i]);
            assert(raws.take(k)[i] == raws[i]);
            assert(well_shaped(plan[i], raws[i]));
        }
        lemma_decode_one_ok(ds[0], strategy, blk, raws.take(k));
        assert forall|i: int| 0 <= i < raws.skip(k).len() implies well_shaped(
            #[trigger] plan_of(ds.skip(1), strategy, blk)[i],
            raws.skip(k)[i],
        ) by {
            assert(plan[k + i] == rest_plan[i]);
            assert(raws.skip(k)[i] == raws[k + i]);
            assert(well_shaped(plan[k + i], raws[k + i]));
        }
        lemma_round_trip(ds.skip(1), strategy, blk, raws.skip(k));
        let rest = demux_of(ds.skip(1), raws.skip(k), strategy)->Ok_0;
        let out = demux_of(ds, raws, strategy)->Ok_0;
        if contributes(ds[0]) {
            match decode_one(ds[0], strategy, raws.take(k)) {
                Ok(opt) => match opt {
                    Option::Some(r) => {
                        assert(out == seq![r] + rest);
                        assert(kept(ds) == seq![ds[0]] + kept(ds.skip(1)));
                        assert forall|j: int| 0 <= j < out.len() implies entry_follows(
                            kept(ds)[j],
                            #[trigger] out[j],
                            strategy,
                        ) by {
                            if j == 0 {
                                assert(out[0] == r);
                                assert(kept(ds)[0] == ds[0]);
                            } else {
                                assert(out[j] == rest[j - 1]);
                                assert(kept(ds)[j] == kept(ds.skip(1))[j - 1]);
                            }
                        }
                    },
                    Option::None => {},
                },
                Err(_) => {},
            }
        } else {
            assert(out == rest);
            assert(kept(ds) == kept(ds.skip(1)));
        }
    }
}

/// Short batch: when the transport returns well-shaped values but fewer than
/// the plan demands, the walk still succeeds and returns a strictly shorter
/// result list — never an error — covering only fully-consumed descriptors.
pub proof fn lemma_short_batch(
    ds: Seq<FetchStateV>,
    strategy: Strategy,
    blk: BlockSelectorV,
    raws: Seq<RawValueV>,
)
    requires
        raws.len() < plan_of(ds, strategy, blk).len(),
        forall|i: int|
            0 <= i < raws.len() ==> well_shaped(#[trigger] plan_of(ds, strategy, blk)[i], raws[i]),
    ensures
        demux_of(ds, raws, strategy) is Ok,
        demux_of(ds, raws, strategy)->Ok_0.len() < out_count(ds),
    decreases ds.len(),
{
    assert(ds.len() > 0);
    let k = cost(ds[0], strategy) as int;
    lemma_cost_is_calls_len(ds[0], strategy, blk);
    let calls = calls_for(ds[0], strategy, blk);
    let plan = plan_of(ds, strategy, blk);
    let rest_plan = plan_of(ds.skip(1), strategy, blk);
    assert(plan == calls + rest_plan);
    if raws.len() < k {
        assert(k > 0);
        assert(contributes(ds[0]));
        assert(out_count(ds) >= 1);
    } else {
        assert forall|i: int| 0 <= i < k implies well_shaped(
            #[trigger] calls_for(ds[0], strategy, blk)[i],
            raws.take(k)[i],
        ) by {
            assert(plan[i] == calls[i]);
            assert(raws.take(k)[i] == raws[i]);
            assert(well_shaped(plan[i], raws[i]));
        }
        lemma_decode_one_ok(ds[0], strategy, blk, raws.take(k));
        assert forall|i: int| 0 <= i < raws.skip(k).len() implies well_shaped(
            #[trigger] plan_of(ds.skip(1), strategy, blk)[i],
            raws.skip(k)[i],
        ) by {
            assert(plan[k + i] == rest_plan[i]);
            assert(raws.skip(k)[i] == raws[k + i]);
            assert(well_shaped(plan[k + i], raws[k + i]));
        }
        lemma_short_batch(ds.skip(1), strategy, blk, raws.skip(k));
    }
}

/// For a descriptor that asks for both code and storage, the direct and the
/// proof-based strategies agree on the core fields — balance, nonce and code
/// — whenever the proof call's account carries the balance and nonce that the
/// direct calls returned; only the proof field differs.
pub proof fn lemma_strategy_core_agreement(
    d: FetchStateV,
    bal: Seq<u8>,
    non: Seq<u8>,
    c: Seq<u8>,
    svals: Seq<RawValueV>,
    acc: AccountResultV,
)
    requires
        d.code is Some,
        d.access_list matches Option::Some(ar) && svals.len() == ar.storage_keys.len(),
        fits_u64(non),
        forall|i: int|
            0 <= i < svals.len() ==> (#[trigger] svals[i] matches RawValueV::Data(v) && v.len()
                == 32),
        acc.balance == bal,
        acc.nonce == nonce_of(non) as u64,
    ensures
        ({
            let rd = demux_of(
                seq![d],
                seq![RawValueV::Quantity(bal), RawValueV::Quantity(non), RawValueV::Data(c)]
                    + svals,
                Strategy::Direct,
            );
            let rp = demux_of(
                seq![d],
                seq![RawValueV::Account(acc), RawValueV::Data(c)],
                Strategy::ProofBased,
            );
            &&& rd is Ok && rp is Ok
            &&& rd->Ok_0.len() == 1 && rp->Ok_0.len() == 1
            &&& rd->Ok_0[0].code == rp->Ok_0[0].code
            &&& rd->Ok_0[0].acc is Some && rp->Ok_0[0].acc is Some
            &&& rd->Ok_0[0].acc matches Option::Some(ad) && ad.balance == acc.balance
                && ad.nonce == acc.nonce
        }),
{
    let dsd = seq![d];
    let rawsd = seq![RawValueV::Quantity(bal), RawValueV::Quantity(non), RawValueV::Data(c)]
        + svals;
    let rawsp = seq![RawValueV::Account(acc), RawValueV::Data(c)];
    assert(dsd[0] == d);
    assert(dsd.skip(1) =~= Seq::<FetchStateV>::empty());
    let kd = cost(d, Strategy::Direct) as int;
    assert(kd == 3 + svals.len());
    assert(rawsd.len() == kd);
    assert(rawsd.take(kd) =~= rawsd);
    assert(rawsd[0] == RawValueV::Quantity(bal));
    assert(rawsd[1] == RawValueV::Quantity(non));
    assert(rawsd[2] == RawValueV::Data(c));
    assert forall|j: int| 0 <= j < svals.len() implies #[trigger] rawsd.skip(3)[j] matches
        RawValueV::Data(v) && v.len() == 32 by {
        assert(rawsd.skip(3)[j] == rawsd[3 + j]);
        assert(rawsd[3 + j] == svals[j]);
        assert(svals[j] matches RawValueV::Data(v) && v.len() == 32);
    }
    match d.access_list {
        Option::Some(ar) => {
            lemma_storage_decode_ok(ar.storage_keys, rawsd.skip(3));
        },
        Option::None => {},
    }
    assert(rawsd.skip(kd) =~= Seq::<RawValueV>::empty());
    assert(demux_of(dsd.skip(1), rawsd.skip(kd), Strategy::Direct) == Ok::<
        Seq<FetchStateResultV>,
        crate::demux::FailV,
    >(Seq::empty()));
    match decode_one(d, Strategy::Direct, rawsd.take(kd)) {
        Ok(opt) => match opt {
            Option::Some(r) => {
                assert(seq![r] + Seq::<FetchStateResultV>::empty() =~= seq![r]);
            },
            Option::None => {},
        },
        Err(_) => {},
    }
    let kp = cost(d, Strategy::ProofBased) as int;
    assert(kp == 2);
    assert(rawsp.take(kp) =~= rawsp);
    assert(rawsp[0] == RawValueV::Account(acc));
    assert(rawsp[1] == RawValueV::Data(c));
    assert(rawsp.skip(kp) =~= Seq::<RawValueV>::empty());
    assert(demux_of(dsd.skip(1), rawsp.skip(kp), Strategy::ProofBased) == Ok::<
        Seq<FetchStateResultV>,
        crate::demux::FailV,
    >(Seq::empty()));
    match decode_one(d, Strategy::ProofBased, rawsp.take(kp)) {
        Ok(opt) => match opt {
            Option::Some(r) => {
                assert(seq![r] + Seq::<FetchStateResultV>::empty() =~= seq![r]);
            },
            Option::None => {},
        },
        Err(_) => {},
    }
}

} // verus!
