//! The records exchanged with the execution engine: account snapshots,
//! change-set entries, log records, transaction parameters, and the errors
//! the store surfaces.

use vstd::prelude::*;
use crate::words::{Address, W256};

verus! {

/// Balance and nonce of an account, as the read contract returns them.
#[derive(Clone, Copy, PartialEq, Eq, Debug)]
pub struct Basic {
    pub balance: W256,
    pub nonce: W256,
}

/// A log record accumulated during a commit batch; passed through
/// unmodified and never interpreted by the store.
#[derive(Clone, PartialEq, Eq, Debug)]
pub struct Log {
    pub address: Address,
    pub topics: Vec<W256>,
    pub data: Vec<u8>,
}

/// Account information held by the existence index.
#[derive(Clone, PartialEq, Eq, Debug)]
pub struct MemoryAccount {
    /// Account nonce.
    pub nonce: W256,
    /// Account balance.
    pub balance: W256,
    /// Full account storage.
    pub storage: Vec<(W256, W256)>,
    /// Account code.
    pub code: Vec<u8>,
}

/// The mathematical content of a `MemoryAccount`.
pub struct AccountV {
    pub nonce: nat,
    pub balance: nat,
    pub storage: Seq<(nat, nat)>,
    pub code: Seq<u8>,
}

impl View for MemoryAccount {
    type V = AccountV;

    open spec fn view(&self) -> AccountV {
        AccountV {
            nonce: self.nonce@,
            balance: self.balance@,
            storage: self.storage@.map_values(|p: (W256, W256)| (p.0@, p.1@)),
            code: self.code@,
        }
    }
}

impl MemoryAccount {
    /// An account with zero balance and nonce, no storage and no code.
    pub fn empty() -> (r: MemoryAccount)
        ensures
            r@.balance == 0,
            r@.nonce == 0,
            r@.storage == Seq::<(nat, nat)>::empty(),
            r@.code == Seq::<u8>::empty(),
    {
        let r = MemoryAccount {
            nonce: W256::zero(),
            balance: W256::zero(),
            storage: Vec::new(),
            code: Vec::new(),
        };
        proof {
            assert(r@.storage =~= Seq::<(nat, nat)>::empty());
        }
        r
    }
}

/// One entry of a change-set batch, as the engine delivers it.
pub enum Apply {
    /// Set balance and nonce, optionally replace the code (`None` means
    /// unchanged), and write the given storage diffs.
    Modify {
        address: Address,
        basic: Basic,
        code: Option<Vec<u8>>,
        storage: Vec<(W256, W256)>,
        reset_storage: bool,
    },
    /// Tombstone the account's rows and drop it from the existence index.
    Delete { address: Address },
}

/// The mathematical content of an `Apply` entry, byte-for-byte as the
/// tables will record it.
pub enum ApplyV {
    Modify {
        address: Seq<u8>,
        balance: Seq<u8>,
        nonce: Seq<u8>,
        code: Option<Seq<u8>>,
        storage: Seq<(Seq<u8>, Seq<u8>)>,
        reset_storage: bool,
    },
    Delete { address: Seq<u8> },
}

impl View for Apply {
    type V = ApplyV;

    open spec fn view(&self) -> ApplyV {
        match self {
            Apply::Modify { address, basic, code, storage, reset_storage } => ApplyV::Modify {
                address: address@,
                balance: basic.balance.b@,
                nonce: basic.nonce.b@,
                code: match code {
                    Some(c) => Some(c@),
                    None => None,
                },
                storage: storage@.map_values(|p: (W256, W256)| (p.0.b@, p.1.b@)),
                reset_storage: *reset_storage,
            },
            Apply::Delete { address } => ApplyV::Delete { address: address@ },
        }
    }
}

/// The failures the store surfaces; none is mapped to a default value.
#[derive(PartialEq, Eq, Debug)]
pub enum StoreError {
    /// Invalid storage location or schema initialization failure.
    Configuration(String),
    /// I/O failure while resolving a latest-value lookup.
    Query(String),
    /// A stored field does not match its fixed byte width.
    Encoding,
    /// A failure partway through applying a batch; the batch was aborted.
    Commit(String),
}

/// Parameters of a transaction request, as the caller hands them over.
#[derive(Clone, PartialEq, Eq, Debug)]
pub struct SendTransactionParams {
    pub from: String,
    pub to: String,
    pub gas: Option<String>,
    pub gas_price: Option<String>,
    pub value: Option<String>,
    pub data: String,
}

/// Removes a leading `0x` from a hexadecimal field; anything without that
/// prefix is refused.
pub fn strip_hex_prefix(s: &Vec<u8>) -> (r: Option<Vec<u8>>)
    ensures
        r is Some <==> (s@.len() >= 2 && s@[0] == 48u8 && s@[1] == 120u8),
        r is Some ==> r->0@ == s@.skip(2),
{
    if s.len() < 2 || s[0] != 48u8 || s[1] != 120u8 {
        return None;
    }
    let mut out: Vec<u8> = Vec::new();
    let mut i: usize = 2;
    while i < s.len()
        invariant
            2 <= i <= s@.len(),
            out@ =~= s@.subrange(2, i as int),
        decreases s@.len() - i,
    {
        out.push(s[i]);
        i = i + 1;
    }
    proof {
        assert(out@ =~= s@.skip(2));
    }
    Some(out)
}

} // verus!
