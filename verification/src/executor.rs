//! The upstream contract with the execution engine: the engine runs
//! transactions against the backend's reads and delivers one change-set
//! batch plus one log batch to the commit operation.  The engine itself is
//! an external collaborator; this trait only fixes the call shape its
//! drivers implement.

use vstd::prelude::*;
use crate::words::{Address, W256};

verus! {

/// How a transaction run ended, as reported by the engine.
#[derive(Clone, Copy, PartialEq, Eq, Debug)]
pub enum ExitReason {
    /// The run completed and its effects stand.
    Succeed,
    /// The run failed; no effects stand.
    Error,
    /// The run reverted its own effects.
    Revert,
    /// The machine cannot continue.
    Fatal,
}

/// An execution engine the backend can serve.
pub trait Executor {
    /// Runs a call transaction and returns its outcome and output.
    fn transact_call(
        &mut self,
        caller: Address,
        address: Address,
        value: W256,
        data: Vec<u8>,
        gas_limit: u64,
        access_list: Vec<(Address, Vec<W256>)>,
    ) -> (ExitReason, Vec<u8>);

    /// Runs a create transaction and returns its outcome and output.
    fn transact_create(
        &mut self,
        caller: Address,
        value: W256,
        init_code: Vec<u8>,
        gas_limit: u64,
        access_list: Vec<(Address, Vec<W256>)>,
    ) -> (ExitReason, Vec<u8>);
}

} // verus!
