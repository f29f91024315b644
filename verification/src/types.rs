//! Domain data: addresses, 32-byte words, fetch descriptors, per-account
//! results, the typed RPC calls a plan emits, the raw values a batch returns,
//! and the error type of the batched operations.
//!
//! Every executable type has a spec-level mirror (`...V`) reached through
//! `DeepView`; all contracts in this crate speak over those mirrors.

use vstd::prelude::*;

verus! {

/// A 20-byte account address.
pub type Address = [u8; 20];

/// A 32-byte word: storage keys, storage values and block hashes.
pub type H256 = [u8; 32];

/// A 256-bit unsigned quantity in big-endian byte order (balances, nonces on
/// the wire).
pub type U256 = [u8; 32];

/// Which block a query refers to: a concrete hash, a concrete number, or the
/// symbolic latest block.
#[derive(Debug, Clone, Copy, PartialEq)]
pub enum BlockSelector {
    Hash(H256),
    Number(u64),
    Latest,
}

#[verifier::ext_equal]
pub enum BlockSelectorV {
    Hash(Seq<u8>),
    Number(u64),
    Latest,
}

impl DeepView for BlockSelector {
    type V = BlockSelectorV;

    open spec fn deep_view(&self) -> BlockSelectorV {
        match self {
            BlockSelector::Hash(h) => BlockSelectorV::Hash(h.deep_view()),
            BlockSelector::Number(n) => BlockSelectorV::Number(*n),
            BlockSelector::Latest => BlockSelectorV::Latest,
        }
    }
}

/// How account state is fetched: one dedicated call per piece, or one
/// combined call that also returns a cryptographic inclusion proof.
#[derive(Debug, Clone, Copy, PartialEq)]
pub enum Strategy {
    Direct,
    ProofBased,
}

/// A request, within one fetch descriptor, to read a set of storage slots of
/// an account (under the proof-based strategy the combined proof call covers
/// exactly these keys).
#[derive(Debug, Clone, PartialEq)]
pub struct AccessRequest {
    pub address: Address,
    pub storage_keys: Vec<H256>,
}

#[verifier::ext_equal]
pub struct AccessRequestV {
    pub address: Seq<u8>,
    pub storage_keys: Seq<Seq<u8>>,
}

impl DeepView for AccessRequest {
    type V = AccessRequestV;

    open spec fn deep_view(&self) -> AccessRequestV {
        AccessRequestV {
            address: self.address.deep_view(),
            storage_keys: self.storage_keys.deep_view(),
        }
    }
}

/// One fetch descriptor: which pieces of state are wanted for one account.
/// `code` carries the address whose bytecode is wanted, if any; `access_list`
/// carries a storage read request, if any.
#[derive(Debug, Clone, PartialEq)]
pub struct FetchState {
    pub code: Option<Address>,
    pub access_list: Option<AccessRequest>,
}

#[verifier::ext_equal]
pub struct FetchStateV {
    pub code: Option<Seq<u8>>,
    pub access_list: Option<AccessRequestV>,
}

impl DeepView for FetchState {
    type V = FetchStateV;

    open spec fn deep_view(&self) -> FetchStateV {
        FetchStateV { code: self.code.deep_view(), access_list: self.access_list.deep_view() }
    }
}

/// The address a descriptor resolves to: the code address when bytecode is
/// wanted, otherwise the access request's address. A descriptor that wants
/// neither resolves to nothing and is skipped by the planner.
pub open spec fn resolved(d: FetchStateV) -> Option<Seq<u8>> {
    match d.code {
        Option::Some(a) => Option::Some(a),
        Option::None => match d.access_list {
            Option::Some(ar) => Option::Some(ar.address),
            Option::None => Option::None,
        },
    }
}

impl FetchState {
    /// The resolvable address of this descriptor, if it has one.
    pub fn get_addr(&self) -> (r: Option<Address>)
        ensures
            match r {
                Option::Some(a) => resolved(self.deep_view()) == Option::Some(a.deep_view()),
                Option::None => resolved(self.deep_view()) is None,
            },
    {
        match &self.code {
            Option::Some(a) => Option::Some(*a),
            Option::None => match &self.access_list {
                Option::Some(ar) => Option::Some(ar.address),
                Option::None => Option::None,
            },
        }
    }
}

/// One storage slot in a per-account result: the key that was asked for, the
/// value that came back, and the inclusion proof (empty under the direct
/// strategy).
#[derive(Debug, Clone, PartialEq)]
pub struct StorageResult {
    pub key: H256,
    pub value: Vec<u8>,
    pub proof: Vec<Vec<u8>>,
}

#[verifier::ext_equal]
pub struct StorageResultV {
    pub key: Seq<u8>,
    pub value: Seq<u8>,
    pub proof: Seq<Seq<u8>>,
}

impl DeepView for StorageResult {
    type V = StorageResultV;

    open spec fn deep_view(&self) -> StorageResultV {
        StorageResultV {
            key: self.key.deep_view(),
            value: self.value.deep_view(),
            proof: self.proof.deep_view(),
        }
    }
}

/// The account-level part of a fetch result: balance, nonce and the storage
/// slots that were read.
#[derive(Debug, Clone, PartialEq)]
pub struct AccountResult {
    pub address: Address,
    pub balance: U256,
    pub nonce: u64,
    pub storage_proof: Vec<StorageResult>,
}

#[verifier::ext_equal]
pub struct AccountResultV {
    pub address: Seq<u8>,
    pub balance: Seq<u8>,
    pub nonce: u64,
    pub storage_proof: Seq<StorageResultV>,
}

impl DeepView for AccountResult {
    type V = AccountResultV;

    open spec fn deep_view(&self) -> AccountResultV {
        AccountResultV {
            address: self.address.deep_view(),
            balance: self.balance.deep_view(),
            nonce: self.nonce,
            storage_proof: self.storage_proof.deep_view(),
        }
    }
}

/// The per-descriptor result of a batched fetch: the account part (absent
/// when the strategy did not ask for it) and the bytecode (present iff the
/// descriptor wanted code).
#[derive(Debug, Clone, PartialEq)]
pub struct FetchStateResult {
    pub acc: Option<AccountResult>,
    pub code: Option<Vec<u8>>,
}

#[verifier::ext_equal]
pub struct FetchStateResultV {
    pub acc: Option<AccountResultV>,
    pub code: Option<Seq<u8>>,
}

impl DeepView for FetchStateResult {
    type V = FetchStateResultV;

    open spec fn deep_view(&self) -> FetchStateResultV {
        FetchStateResultV { acc: self.acc.deep_view(), code: self.code.deep_view() }
    }
}

/// One underlying RPC call of a plan, fully parameterized. The transport maps
/// each variant to its wire method name and submits the batch in order.
#[derive(Debug, Clone, PartialEq)]
pub enum RpcCall {
    GetBalance { addr: Address, block: BlockSelector },
    GetTransactionCount { addr: Address, block: BlockSelector },
    GetCode { addr: Address, block: BlockSelector },
    GetStorageAt { addr: Address, key: H256, block: BlockSelector },
    GetProof { addr: Address, keys: Vec<H256>, block: BlockSelector },
}

#[verifier::ext_equal]
pub enum RpcCallV {
    GetBalance { addr: Seq<u8>, block: BlockSelectorV },
    GetTransactionCount { addr: Seq<u8>, block: BlockSelectorV },
    GetCode { addr: Seq<u8>, block: BlockSelectorV },
    GetStorageAt { addr: Seq<u8>, key: Seq<u8>, block: BlockSelectorV },
    GetProof { addr: Seq<u8>, keys: Seq<Seq<u8>>, block: BlockSelectorV },
}

impl DeepView for RpcCall {
    type V = RpcCallV;

    open spec fn deep_view(&self) -> RpcCallV {
        match self {
            RpcCall::GetBalance { addr, block } => RpcCallV::GetBalance {
                addr: addr.deep_view(),
                block: block.deep_view(),
            },
            RpcCall::GetTransactionCount { addr, block } => RpcCallV::GetTransactionCount {
                addr: addr.deep_view(),
                block: block.deep_view(),
            },
            RpcCall::GetCode { addr, block } => RpcCallV::GetCode {
                addr: addr.deep_view(),
                block: block.deep_view(),
            },
            RpcCall::GetStorageAt { addr, key, block } => RpcCallV::GetStorageAt {
                addr: addr.deep_view(),
                key: key.deep_view(),
                block: block.deep_view(),
            },
            RpcCall::GetProof { addr, keys, block } => RpcCallV::GetProof {
                addr: addr.deep_view(),
                keys: keys.deep_view(),
                block: block.deep_view(),
            },
        }
    }
}

/// One raw value of a batched response, already framed by the transport:
/// a 256-bit quantity, a byte string, or a decoded account-with-proof object.
#[derive(Debug, Clone, PartialEq)]
pub enum RawValue {
    Quantity(U256),
    Data(Vec<u8>),
    Account(AccountResult),
}

#[verifier::ext_equal]
pub enum RawValueV {
    Quantity(Seq<u8>),
    Data(Seq<u8>),
    Account(AccountResultV),
}

impl DeepView for RawValue {
    type V = RawValueV;

    open spec fn deep_view(&self) -> RawValueV {
        match self {
            RawValue::Quantity(q) => RawValueV::Quantity(q.deep_view()),
            RawValue::Data(d) => RawValueV::Data(d.deep_view()),
            RawValue::Account(a) => RawValueV::Account(a.deep_view()),
        }
    }
}

/// The error type of the batched operations.
#[derive(Debug, Clone, PartialEq)]
pub enum RpcError {
    /// A raw result did not have the shape its call demands: `op` is the wire
    /// method name of that call and `got` the offending raw value.
    Decode { op: String, got: RawValue },
    /// The symbolic latest block was used where a concrete hash or number is
    /// required.
    UnsupportedSelector,
}

} // verus!
