//! The world-state: committed storage under a write-log, with the chain
//! parameters and validator stakes that the core reads.
use vstd::prelude::*;
use crate::address::{Address, Amount, Digest, Key, TX_TRANSFER_WASM};
use crate::protocol::Vote;
use crate::storage::{Layer, WriteLog};

verus! {

/// The world-state seen by the dispatcher.
#[derive(Debug)]
pub struct State {
    pub write_log: WriteLog,
    /// Committed storage.
    pub storage: Layer,
    /// The protocol parameter bounding the gas of fee unshielding.
    pub fee_unshielding_gas_limit: u64,
    /// The stake of each consensus validator.
    pub validators: Vec<(Address, Amount)>,
    /// Votes cast by validators through vote-extension protocol transactions.
    pub votes: Vec<Vote>,
    /// Height of the last committed block.
    pub last_block_height: u64,
}

/// The balance that `m` gives to `owner` in `token`; a missing key reads as zero.
pub open spec fn balance_in(m: Map<Key, Amount>, token: Address, owner: Address) -> Amount {
    let k = Key::Balance { token, owner };
    if m.contains_key(k) {
        m[k]
    } else {
        0
    }
}

impl State {
    pub open spec fn wf(&self) -> bool {
        self.write_log.wf() && self.storage.wf()
    }

    /// Every key below the tx buffer: committed storage under the block
    /// and precommit buffers.
    pub open spec fn base_view(&self) -> Map<Key, Amount> {
        self.storage@.union_prefer_right(self.write_log.block@).union_prefer_right(self.write_log.precommit@)
    }

    /// Every key as a read sees it: the write-log's tiers over committed storage.
    pub open spec fn view_map(&self) -> Map<Key, Amount> {
        self.base_view().union_prefer_right(self.write_log.tx@)
    }

    pub open spec fn balance(&self, token: Address, owner: Address) -> Amount {
        balance_in(self.view_map(), token, owner)
    }

    /// A state with empty write-log over the given committed storage.
    pub fn new(storage: Layer, fee_unshielding_gas_limit: u64, validators: Vec<(Address, Amount)>) -> (r: State)
        requires
            storage.wf(),
        ensures
            r.wf(),
            r.storage == storage,
            r.write_log.tx@.is_empty(),
            r.write_log.precommit@.is_empty(),
            r.write_log.block@.is_empty(),
            r.write_log.replay@.len() == 0,
            r.fee_unshielding_gas_limit == fee_unshielding_gas_limit,
            r.validators == validators,
            r.votes@.len() == 0,
            r.last_block_height == 0,
    {
        State {
            write_log: WriteLog::new(),
            storage,
            fee_unshielding_gas_limit,
            validators,
            votes: Vec::new(),
            last_block_height: 0,
        }
    }

    /// Fold the block buffer into committed storage, ending the block.
    pub fn commit_block(&mut self)
        requires
            old(self).wf(),
        ensures
            final(self).wf(),
            final(self).storage@ == old(self).storage@.union_prefer_right(old(self).write_log.block@),
            final(self).write_log.block@.is_empty(),
            final(self).write_log.tx == old(self).write_log.tx,
            final(self).write_log.precommit == old(self).write_log.precommit,
            final(self).write_log.replay == old(self).write_log.replay,
            final(self).validators == old(self).validators,
            final(self).votes == old(self).votes,
            final(self).fee_unshielding_gas_limit == old(self).fee_unshielding_gas_limit,
            final(self).last_block_height == old(self).last_block_height,
    {
        self.storage.absorb(&self.write_log.block);
        self.write_log.block.clear();
    }

    /// Read `k`, consulting tx, precommit and block buffers, then storage.
    pub fn read(&self, k: &Key) -> (r: Option<Amount>)
        requires
            self.wf(),
        ensures
            r == (if self.view_map().contains_key(*k) { Some(self.view_map()[*k]) } else { None::<Amount> }),
    {
        match self.write_log.tx.get(k) {
            Some(v) => Some(v),
            None => match self.write_log.precommit.get(k) {
                Some(v) => Some(v),
                None => match self.write_log.block.get(k) {
                    Some(v) => Some(v),
                    None => self.storage.get(k),
                },
            },
        }
    }

    /// The balance of `owner` in `token`; zero where none is stored.
    pub fn read_balance(&self, token: &Address, owner: &Address) -> (r: Amount)
        requires
            self.wf(),
        ensures
            r == self.balance(*token, *owner),
    {
        match self.read(&Key::Balance { token: *token, owner: *owner }) {
            Some(v) => v,
            None => 0,
        }
    }
}

/// The code hash of the transfer transaction, read under its canonical code
/// name; `None` where no such code is registered.
pub fn get_transfer_hash_from_storage(state: &State) -> (r: Option<Digest>)
    requires
        state.wf(),
    ensures
        r == (if state.view_map().contains_key(Key::CodeName(TX_TRANSFER_WASM)) {
            Some(state.view_map()[Key::CodeName(TX_TRANSFER_WASM)])
        } else {
            None::<Digest>
        }),
{
    state.read(&Key::CodeName(TX_TRANSFER_WASM))
}

} // verus!
