//! The batch demultiplexer: walks the flat, ordered response list of a
//! submitted plan back into one structured result per resolvable descriptor.
//!
//! It keeps a single forward cursor and consumes, for each descriptor in
//! order, exactly `cost(descriptor, strategy)` raw values — the same count the
//! planner emitted — decoding each into the shape its call demands. A raw
//! value of the wrong shape fails the whole operation with a decode error
//! naming the call's wire method and carrying the offending value. If the
//! responses run out before a descriptor's full group is present, the walk
//! stops and returns the results assembled so far (a transport truncation,
//! not an error); a trailing partial group is discarded whole.

use vstd::prelude::*;
use crate::types::{
    Address, AccountResult, FetchState, FetchStateResult, FetchStateResultV, FetchStateV,
    RawValue, RawValueV, RpcError, StorageResult, StorageResultV, Strategy, U256, resolved,
};
use crate::planner::cost;

verus! {

/// Which decode step a raw value failed at; each step belongs to one wire
/// method.
#[derive(Clone, Copy)]
pub enum OpTag {
    Balance,
    Nonce,
    Code,
    Storage,
    Proof,
}

/// The wire method name of a decode step.
pub open spec fn op_name(t: OpTag) -> Seq<char> {
    match t {
        OpTag::Balance => "eth_getBalance"@,
        OpTag::Nonce => "eth_getTransactionCount"@,
        OpTag::Code => "eth_getCode"@,
        OpTag::Storage => "eth_getStorageAt"@,
        OpTag::Proof => "eth_getProof"@,
    }
}

/// A decode failure in the model: the step it happened at and the raw value
/// that had the wrong shape.
#[verifier::ext_equal]
pub struct FailV {
    pub op: OpTag,
    pub raw: RawValueV,
}

/// Whether a 32-byte big-endian quantity fits in 64 bits.
pub open spec fn fits_u64(q: Seq<u8>) -> bool {
    q.len() == 32 && (forall|i: int| 0 <= i < 24 ==> q[i] == 0)
}

/// The value of a big-endian byte string.
pub open spec fn be_val(s: Seq<u8>) -> nat
    decreases s.len(),
{
    if s.len() == 0 {
        0
    } else {
        256 * be_val(s.drop_last()) + s.last() as nat
    }
}

/// The nonce a 32-byte quantity denotes: the value of its low 8 bytes.
pub open spec fn nonce_of(q: Seq<u8>) -> nat {
    be_val(q.skip(24))
}

spec fn pow256(n: nat) -> nat
    decreases n,
{
    if n == 0 {
        1
    } else {
        256 * pow256((n - 1) as nat)
    }
}

/// Decoding of the per-key storage reads of the direct strategy, in key
/// order: each raw value must be a 32-byte byte string; the result pairs it
/// with its key and an explicitly empty proof.
pub open spec fn storage_results(keys: Seq<Seq<u8>>, seg: Seq<RawValueV>) -> Result<
    Seq<StorageResultV>,
    FailV,
>
    decreases keys.len(),
{
    if keys.len() == 0 {
        Ok(Seq::empty())
    } else {
        match seg[0] {
            RawValueV::Data(v) => if v.len() != 32 {
                Err(FailV { op: OpTag::Storage, raw: seg[0] })
            } else {
                match storage_results(keys.skip(1), seg.skip(1)) {
                    Ok(rest) => Ok(
                        seq![StorageResultV { key: keys[0], value: v, proof: Seq::empty() }]
                            + rest,
                    ),
                    Err(f) => Err(f),
                }
            },
            _ => Err(FailV { op: OpTag::Storage, raw: seg[0] }),
        }
    }
}

/// Decoding of one resolvable descriptor's segment under the direct
/// strategy: balance, transaction count (which must fit in 64 bits), then
/// code if wanted, then the storage reads.
pub open spec fn decode_direct(d: FetchStateV, a: Seq<u8>, seg: Seq<RawValueV>) -> Result<
    FetchStateResultV,
    FailV,
> {
    match seg[0] {
        RawValueV::Quantity(bal) => match seg[1] {
            RawValueV::Quantity(non) => if !fits_u64(non) {
                Err(FailV { op: OpTag::Nonce, raw: seg[1] })
            } else {
                let code_r: Result<Option<Seq<u8>>, FailV> = match d.code {
                    Option::Some(_) => match seg[2] {
                        RawValueV::Data(c) => Ok(Option::Some(c)),
                        _ => Err(FailV { op: OpTag::Code, raw: seg[2] }),
                    },
                    Option::None => Ok(Option::None),
                };
                match code_r {
                    Err(f) => Err(f),
                    Ok(codev) => {
                        let base: int = if d.code is Some {
                            3
                        } else {
                            2
                        };
                        let keys: Seq<Seq<u8>> = match d.access_list {
                            Option::Some(ar) => ar.storage_keys,
                            Option::None => Seq::empty(),
                        };
                        match storage_results(keys, seg.skip(base)) {
                            Err(f) => Err(f),
                            Ok(sps) => Ok(
                                FetchStateResultV {
                                    acc: Option::Some(
                                        crate::types::AccountResultV {
                                            address: a,
                                            balance: bal,
                                            nonce: nonce_of(non) as u64,
                                            storage_proof: sps,
                                        },
                                    ),
                                    code: codev,
                                },
                            ),
                        }
                    },
                }
            },
            _ => Err(FailV { op: OpTag::Nonce, raw: seg[1] }),
        },
        _ => Err(FailV { op: OpTag::Balance, raw: seg[0] }),
    }
}

/// Decoding of one descriptor's segment under the proof-based strategy: the
/// combined account-with-proof object if an access request is present, then
/// code if wanted. The decoded account is passed through unchanged.
pub open spec fn decode_proof(d: FetchStateV, seg: Seq<RawValueV>) -> Result<
    FetchStateResultV,
    FailV,
> {
    match d.access_list {
        Option::Some(_) => match seg[0] {
            RawValueV::Account(acc) => match d.code {
                Option::Some(_) => match seg[1] {
                    RawValueV::Data(c) => Ok(
                        FetchStateResultV {
                            acc: Option::Some(acc),
                            code: Option::Some(c),
                        },
                    ),
                    _ => Err(FailV { op: OpTag::Code, raw: seg[1] }),
                },
                Option::None => Ok(
                    FetchStateResultV { acc: Option::Some(acc), code: Option::None },
                ),
            },
            _ => Err(FailV { op: OpTag::Proof, raw: seg[0] }),
        },
        Option::None => match d.code {
            Option::Some(_) => match seg[0] {
                RawValueV::Data(c) => Ok(
                    FetchStateResultV { acc: Option::None, code: Option::Some(c) },
                ),
                _ => Err(FailV { op: OpTag::Code, raw: seg[0] }),
            },
            Option::None => Ok(FetchStateResultV { acc: Option::None, code: Option::None }),
        },
    }
}

/// What one descriptor contributes to the output, given its segment: a
/// descriptor with no resolvable address contributes nothing under either
/// strategy (zero calls, zero output slots), and a resolvable one exactly
/// one result.
pub open spec fn decode_one(d: FetchStateV, strategy: Strategy, seg: Seq<RawValueV>) -> Result<
    Option<FetchStateResultV>,
    FailV,
> {
    match resolved(d) {
        Option::None => Ok(Option::None),
        Option::Some(a) => match strategy {
            Strategy::Direct => match decode_direct(d, a, seg) {
                Ok(r) => Ok(Option::Some(r)),
                Err(f) => Err(f),
            },
            Strategy::ProofBased => match decode_proof(d, seg) {
                Ok(r) => Ok(Option::Some(r)),
                Err(f) => Err(f),
            },
        },
    }
}

/// The whole demultiplexing walk: for each descriptor in order, consume
/// exactly its call count from the front of the remaining responses and
/// decode the segment. A short batch stops the walk with what was assembled;
/// a wrong shape fails it with the first such failure.
pub open spec fn demux_of(
    ds: Seq<FetchStateV>,
    raws: Seq<RawValueV>,
    strategy: Strategy,
) -> Result<Seq<FetchStateResultV>, FailV>
    decreases ds.len(),
{
    if ds.len() == 0 {
        Ok(Seq::empty())
    } else {
        let k = cost(ds[0], strategy);
        if raws.len() < k {
            Ok(Seq::empty())
        } else {
            match decode_one(ds[0], strategy, raws.take(k as int)) {
                Err(f) => Err(f),
                Ok(opt) => match demux_of(ds.skip(1), raws.skip(k as int), strategy) {
                    Err(f) => Err(f),
                    Ok(rest) => Ok(
                        match opt {
                            Option::Some(r) => seq![r] + rest,
                            Option::None => rest,
                        },
                    ),
                },
            }
        }
    }
}

/// Take the front raw value, moving the cursor one step.
fn take_one(raws: &mut Vec<RawValue>) -> (r: RawValue)
    requires
        old(raws).len() >= 1,
    ensures
        r == old(raws)[0],
        final(raws).deep_view() == old(raws).deep_view().skip(1),
        final(raws).len() == old(raws).len() - 1,
{
    let r = raws.remove(0);
    proof {
        assert(raws@ =~= old(raws)@.skip(1));
        assert(raws.deep_view() =~= old(raws).deep_view().skip(1));
    }
    r
}

fn quantity_fits_u64(q: &U256) -> (b: bool)
    ensures
        b == fits_u64(q.deep_view()),
{
    proof {
        assert(q.deep_view() =~= q@);
    }
    let mut j: usize = 0;
    while j < 24
        invariant
            j <= 24,
            q.deep_view() == q@,
            forall|i: int| 0 <= i < j ==> q@[i] == 0,
        decreases 24 - j,
    {
        if q[j] != 0 {
            return false;
        }
        j += 1;
    }
    true
}

fn quantity_to_u64(q: &U256) -> (r: u64)
    requires
        fits_u64(q.deep_view()),
    ensures
        r as nat == nonce_of(q.deep_view()),
{
    proof {
        assert(q.deep_view() =~= q@);
    }
    let mut v: u64 = 0;
    let mut j: usize = 24;
    while j < 32
        invariant
            24 <= j <= 32,
            q.deep_view() == q@,
            fits_u64(q@),
            v as nat == be_val(q@.subrange(24, j as int)),
            (v as nat) < pow256((j - 24) as nat),
        decreases 32 - j,
    {
        proof {
            reveal_with_fuel(pow256, 9);
            assert(pow256((j - 24) as nat) <= pow256(7)) by {
                if j < 31 {
                    lemma_pow256_increases((j - 24) as nat, 7);
                }
            }
            assert(q@.subrange(24, j as int + 1).drop_last() =~= q@.subrange(24, j as int));
            assert(q@.subrange(24, j as int + 1).last() == q@[j as int]);
        }
        v = v * 256 + (q[j] as u64);
        j += 1;
    }
    proof {
        assert(q@.subrange(24, 32) =~= q@.skip(24));
    }
    v
}

proof fn lemma_pow256_increases(m: nat, n: nat)
    requires
        m <= n,
    ensures
        pow256(m) <= pow256(n),
    decreases n,
{
    if m < n {
        lemma_pow256_increases(m, (n - 1) as nat);
        assert(pow256(n) == 256 * pow256((n - 1) as nat));
    }
}

/// Whether `n` remaining responses hold a whole segment for this descriptor.
fn fits(n: usize, d: &FetchState, strategy: Strategy) -> (b: bool)
    ensures
        b == (n as nat >= cost(d.deep_view(), strategy)),
{
    match strategy {
        Strategy::Direct => match d.get_addr() {
            Option::None => true,
            Option::Some(_) => {
                if n < 2 {
                    return false;
                }
                let mut m = n - 2;
                match &d.code {
                    Option::Some(_) => {
                        if m < 1 {
                            return false;
                        }
                        m -= 1;
                    },
                    Option::None => {},
                }
                match &d.access_list {
                    Option::Some(ar) => m >= ar.storage_keys.len(),
                    Option::None => true,
                }
            },
        },
        Strategy::ProofBased => {
            let mut m = n;
            match &d.access_list {
                Option::Some(_) => {
                    if m < 1 {
                        return false;
                    }
                    m -= 1;
                },
                Option::None => {},
            }
            match &d.code {
                Option::Some(_) => m >= 1,
                Option::None => true,
            }
        },
    }
}

/// Consume and decode one resolvable descriptor's segment under the direct
/// strategy.
#[verifier::loop_isolation(false)]
fn demux_one_direct(d: &FetchState, addr: Address, raws: &mut Vec<RawValue>) -> (r: Result<
    FetchStateResult,
    RpcError,
>)
    requires
        resolved(d.deep_view()) == Option::Some(addr.deep_view()),
        old(raws).len() >= cost(d.deep_view(), Strategy::Direct),
    ensures
        ({
            let dec = decode_direct(
                d.deep_view(),
                addr.deep_view(),
                old(raws).deep_view().take(cost(d.deep_view(), Strategy::Direct) as int),
            );
            match r {
                Ok(res) => {
                    &&& dec == Ok::<FetchStateResultV, FailV>(res.deep_view())
                    &&& final(raws).deep_view() == old(raws).deep_view().skip(
                        cost(d.deep_view(), Strategy::Direct) as int,
                    )
                },
                Err(e) => {
                    &&& dec is Err
                    &&& e matches RpcError::Decode { op, got } && op@ == op_name(dec->Err_0.op)
                        && got.deep_view() == dec->Err_0.raw
                },
            }
        }),
{
    let ghost dv = d.deep_view();
    let ghost k = cost(dv, Strategy::Direct) as int;
    let ghost seg = old(raws).deep_view().take(k);
    let bal_raw = take_one(raws);
    proof {
        assert(seg[0] == old(raws).deep_view()[0]);
    }
    let balance: U256 = match bal_raw {
        RawValue::Quantity(q) => q,
        other => {
            return Err(
                RpcError::Decode { op: "eth_getBalance".to_owned(), got: other },
            );
        },
    };
    let non_raw = take_one(raws);
    proof {
        assert(raws.deep_view() =~= old(raws).deep_view().skip(2));
        assert(old(raws).deep_view().skip(1)[0] == old(raws).deep_view()[1]);
        assert(seg[1] == old(raws).deep_view()[1]);
        assert(non_raw.deep_view() == old(raws).deep_view()[1]);
    }
    let nonce_q: U256 = match non_raw {
        RawValue::Quantity(q) => q,
        other => {
            return Err(
                RpcError::Decode { op: "eth_getTransactionCount".to_owned(), got: other },
            );
        },
    };
    if !quantity_fits_u64(&nonce_q) {
        return Err(
            RpcError::Decode {
                op: "eth_getTransactionCount".to_owned(),
                got: RawValue::Quantity(nonce_q),
            },
        );
    }
    let nonce = quantity_to_u64(&nonce_q);
    let code: Option<Vec<u8>> = match &d.code {
        Option::Some(_) => {
            let c_raw = take_one(raws);
            proof {
                assert(raws.deep_view() =~= old(raws).deep_view().skip(3));
                assert(old(raws).deep_view().skip(2)[0] == old(raws).deep_view()[2]);
                assert(seg[2] == old(raws).deep_view()[2]);
                assert(c_raw.deep_view() == old(raws).deep_view()[2]);
            }
            match c_raw {
                RawValue::Data(c) => Option::Some(c),
                other => {
                    return Err(
                        RpcError::Decode { op: "eth_getCode".to_owned(), got: other },
                    );
                },
            }
        },
        Option::None => Option::None,
    };
    let ghost base: int = if dv.code is Some {
        3
    } else {
        2
    };
    let ghost keysv: Seq<Seq<u8>> = match dv.access_list {
        Option::Some(ar) => ar.storage_keys,
        Option::None => Seq::empty(),
    };
    let mut storage: Vec<StorageResult> = Vec::new();
    match &d.access_list {
        Option::Some(ar) => {
            let mut j: usize = 0;
            proof {
                assert(keysv.skip(0) =~= keysv);
                assert(storage.deep_view() =~= Seq::<StorageResultV>::empty());
                match storage_results(keysv, seg.skip(base)) {
                    Ok(rest) => {
                        assert(storage.deep_view() + rest =~= rest);
                    },
                    Err(_) => {},
                }
            }
            while j < ar.storage_keys.len()
                invariant
                    j <= ar.storage_keys.len(),
                    dv == d.deep_view(),
                    keysv == ar.storage_keys.deep_view(),
                    base == (if dv.code is Some { 3int } else { 2int }),
                    k == cost(dv, Strategy::Direct) as int,
                    base + keysv.len() == k,
                    k <= old(raws).deep_view().len(),
                    seg == old(raws).deep_view().take(k),
                    raws.deep_view() == old(raws).deep_view().skip(base + j),
                    ({
                        let whole = storage_results(keysv, seg.skip(base));
                        match storage_results(keysv.skip(j as int), seg.skip(base + j)) {
                            Ok(rest) => whole == Ok::<Seq<StorageResultV>, FailV>(
                                storage.deep_view() + rest,
                            ),
                            Err(f) => whole == Err::<Seq<StorageResultV>, FailV>(f),
                        }
                    }),
                decreases ar.storage_keys.len() - j,
            {
                proof {
                    assert(base + j < k);
                    assert(raws.deep_view().len() == old(raws).deep_view().len() - (base + j));
                }
                let s_raw = take_one(raws);
                proof {
                    assert(old(raws).deep_view().skip(base + j)[0] == old(
                        raws,
                    ).deep_view()[base + j]);
                    assert(s_raw.deep_view() == old(raws).deep_view()[base + j]);
                    assert(seg[base + j] == old(raws).deep_view()[base + j]);
                    assert(seg.skip(base + j)[0] == seg[base + j]);
                    assert(raws.deep_view() =~= old(raws).deep_view().skip(base + j + 1));
                }
                let val: Vec<u8> = match s_raw {
                    RawValue::Data(v) => {
                        if v.len() != 32 {
                            return Err(
                                RpcError::Decode {
                                    op: "eth_getStorageAt".to_owned(),
                                    got: RawValue::Data(v),
                                },
                            );
                        }
                        v
                    },
                    other => {
                        return Err(
                            RpcError::Decode { op: "eth_getStorageAt".to_owned(), got: other },
                        );
                    },
                };
                let ghost st_pre = storage.deep_view();
                storage.push(
                    StorageResult { key: ar.storage_keys[j], value: val, proof: Vec::new() },
                );
                proof {
                    assert(storage.deep_view() =~~= st_pre.push(
                        StorageResultV {
                            key: keysv[j as int],
                            value: seg.skip(base + j)[0]->Data_0,
                            proof: Seq::empty(),
                        },
                    ));
                    assert(keysv.skip(j as int).skip(1) =~= keysv.skip(j as int + 1));
                    assert(seg.skip(base + j).skip(1) =~= seg.skip(base + j + 1));
                    assert(old(raws).deep_view().skip(base + j).skip(1) =~= old(
                        raws,
                    ).deep_view().skip(base + j + 1));
                    assert(keysv.skip(j as int)[0] == keysv[j as int]);
                    match storage_results(keysv.skip(j as int + 1), seg.skip(base + j + 1)) {
                        Ok(rest) => {
                            assert(storage.deep_view() + rest =~~= st_pre + (seq![
                                StorageResultV {
                                    key: keysv[j as int],
                                    value: seg.skip(base + j)[0]->Data_0,
                                    proof: Seq::empty(),
                                },
                            ] + rest));
                        },
                        Err(_) => {},
                    }
                }
                j += 1;
            }
            proof {
                assert(keysv.skip(keysv.len() as int) =~= Seq::<Seq<u8>>::empty());
            }
        },
        Option::None => {
            proof {
                assert(raws.deep_view() =~= old(raws).deep_view().skip(base));
            }
        },
    }
    proof {
        assert(storage.deep_view() + Seq::<StorageResultV>::empty() =~= storage.deep_view());
        assert(seg.skip(base) =~= old(raws).deep_view().take(k).skip(base));
        assert(raws.deep_view() =~= old(raws).deep_view().skip(k));
    }
    let acc = AccountResult { address: addr, balance, nonce, storage_proof: storage };
    Ok(FetchStateResult { acc: Option::Some(acc), code })
}

/// Consume and decode one descriptor's segment under the proof-based
/// strategy.
fn demux_one_proof(d: &FetchState, raws: &mut Vec<RawValue>) -> (r: Result<
    FetchStateResult,
    RpcError,
>)
    requires
        old(raws).len() >= cost(d.deep_view(), Strategy::ProofBased),
    ensures
        ({
            let dec = decode_proof(
                d.deep_view(),
                old(raws).deep_view().take(cost(d.deep_view(), Strategy::ProofBased) as int),
            );
            match r {
                Ok(res) => {
                    &&& dec == Ok::<FetchStateResultV, FailV>(res.deep_view())
                    &&& final(raws).deep_view() == old(raws).deep_view().skip(
                        cost(d.deep_view(), Strategy::ProofBased) as int,
                    )
                },
                Err(e) => {
                    &&& dec is Err
                    &&& e matches RpcError::Decode { op, got } && op@ == op_name(dec->Err_0.op)
                        && got.deep_view() == dec->Err_0.raw
                },
            }
        }),
{
    let ghost dv = d.deep_view();
    let ghost k = cost(dv, Strategy::ProofBased) as int;
    let ghost seg = old(raws).deep_view().take(k);
    let acc: Option<AccountResult> = match &d.access_list {
        Option::Some(_) => {
            let raw = take_one(raws);
            proof {
                assert(seg[0] == old(raws).deep_view()[0]);
                assert(raw.deep_view() == old(raws).deep_view()[0]);
            }
            match raw {
                RawValue::Account(a) => Option::Some(a),
                other => {
                    return Err(
                        RpcError::Decode { op: "eth_getProof".to_owned(), got: other },
                    );
                },
            }
        },
        Option::None => Option::None,
    };
    let code: Option<Vec<u8>> = match &d.code {
        Option::Some(_) => {
            let raw = take_one(raws);
            proof {
                if dv.access_list is Some {
                    assert(old(raws).deep_view().skip(1)[0] == old(raws).deep_view()[1]);
                    assert(raw.deep_view() == old(raws).deep_view()[1]);
                    assert(seg[1] == old(raws).deep_view()[1]);
                } else {
                    assert(raw.deep_view() == old(raws).deep_view()[0]);
                    assert(seg[0] == old(raws).deep_view()[0]);
                }
            }
            match raw {
                RawValue::Data(c) => Option::Some(c),
                other => {
                    return Err(
                        RpcError::Decode { op: "eth_getCode".to_owned(), got: other },
                    );
                },
            }
        },
        Option::None => Option::None,
    };
    proof {
        assert(raws.deep_view() =~= old(raws).deep_view().skip(k));
    }
    Ok(FetchStateResult { acc, code })
}

/// Demultiplex the ordered batch response of a submitted plan back into one
/// structured result per resolvable descriptor, in descriptor order.
///
/// The result is exactly `demux_of` of the inputs. On a decode failure the
/// error names the failing call's wire method and carries the offending raw
/// value; on a short batch the results assembled so far are returned. When
/// the responses cover the whole plan of the descriptors, the walk never
/// truncates, and the output holds exactly one result per resolvable
/// descriptor; one without a resolvable address contributes zero output
/// slots under either strategy.
#[verifier::loop_isolation(false)]
pub fn demux(raws: Vec<RawValue>, list: &Vec<FetchState>, strategy: Strategy) -> (r: Result<
    Vec<FetchStateResult>,
    RpcError,
>)
    ensures
        ({
            let dm = demux_of(list.deep_view(), raws.deep_view(), strategy);
            match r {
                Ok(out) => dm == Ok::<Seq<FetchStateResultV>, FailV>(out.deep_view()),
                Err(e) => {
                    &&& dm is Err
                    &&& e matches RpcError::Decode { op, got } && op@ == op_name(dm->Err_0.op)
                        && got.deep_view() == dm->Err_0.raw
                },
            }
        }),
{
    let ghost ds = list.deep_view();
    let ghost raws0 = raws.deep_view();
    let mut rem = raws;
    let mut out: Vec<FetchStateResult> = Vec::new();
    let mut i: usize = 0;
    let ghost mut consumed: int = 0;
    proof {
        assert(raws0.skip(0) =~= raws0);
        assert(ds.skip(0) =~= ds);
        assert(out.deep_view() =~= Seq::<FetchStateResultV>::empty());
        match demux_of(ds, raws0, strategy) {
            Ok(rest) => {
                assert(out.deep_view() + rest =~= rest);
            },
            Err(_) => {},
        }
    }
    while i < list.len()
        invariant
            i <= list.len(),
            0 <= consumed <= raws0.len(),
            rem.deep_view() == raws0.skip(consumed),
            ({
                let dm = demux_of(ds, raws0, strategy);
                match demux_of(ds.skip(i as int), raws0.skip(consumed), strategy) {
                    Ok(rest) => dm == Ok::<Seq<FetchStateResultV>, FailV>(
                        out.deep_view() + rest,
                    ),
                    Err(f) => dm == Err::<Seq<FetchStateResultV>, FailV>(f),
                }
            }),
        decreases list.len() - i,
    {
        let d = &list[i];
        proof {
            assert(ds.skip(i as int)[0] == ds[i as int]);
            assert(d.deep_view() == ds[i as int]);
        }
        if !fits(rem.len(), d, strategy) {
            proof {
                assert(demux_of(ds.skip(i as int), raws0.skip(consumed), strategy)
                    == Ok::<Seq<FetchStateResultV>, FailV>(Seq::empty()));
                assert(out.deep_view() + Seq::<FetchStateResultV>::empty() =~= out.deep_view());
            }
            return Ok(out);
        }
        let ghost kk = cost(ds[i as int], strategy) as int;
        let ghost rem_pre = rem.deep_view();
        match d.get_addr() {
            Option::None => {
                proof {
                    assert(kk == 0);
                    assert(rem.deep_view() =~= raws0.skip(consumed + 0));
                }
            },
            Option::Some(addr) => {
                let one = match strategy {
                    Strategy::Direct => demux_one_direct(d, addr, &mut rem),
                    Strategy::ProofBased => demux_one_proof(d, &mut rem),
                };
                match one {
                    Ok(fr) => {
                        let ghost frv = fr.deep_view();
                        let ghost out_pre = out.deep_view();
                        out.push(fr);
                        proof {
                            assert(out.deep_view() =~= out_pre.push(frv));
                            assert(rem_pre.take(kk) == raws0.skip(consumed).take(kk));
                            assert(rem.deep_view() =~= raws0.skip(consumed + kk));
                            assert(decode_one(ds[i as int], strategy, raws0.skip(consumed).take(kk))
                                == Ok::<Option<FetchStateResultV>, FailV>(Option::Some(frv)));
                            match demux_of(
                                ds.skip(i as int + 1),
                                raws0.skip(consumed + kk),
                                strategy,
                            ) {
                                Ok(rest2) => {
                                    assert(out_pre + (seq![frv] + rest2) =~= out.deep_view()
                                        + rest2);
                                },
                                Err(_) => {},
                            }
                        }
                    },
                    Err(e) => {
                        proof {
                            assert(rem_pre.take(kk) == raws0.skip(consumed).take(kk));
                        }
                        return Err(e);
                    },
                }
            },
        }
        proof {
            assert(ds.skip(i as int).skip(1) =~= ds.skip(i as int + 1));
            assert(raws0.skip(consumed).skip(kk) =~= raws0.skip(consumed + kk));
            consumed = consumed + kk;
        }
        i += 1;
    }
    proof {
        assert(ds.skip(list.len() as int) =~= Seq::<FetchStateV>::empty());
        assert(out.deep_view() + Seq::<FetchStateResultV>::empty() =~= out.deep_view());
    }
    Ok(out)
}

} // verus!
