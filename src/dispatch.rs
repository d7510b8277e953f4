//! Dispatch of a transaction by its header: raw payloads, protocol
//! transactions, and wrappers with their replay entry, fee unshielding, fee
//! payment and wrapper gas.
use vstd::prelude::*;
use crate::address::{Address, Amount, Digest, Key, TX_TRANSFER_WASM};
use crate::error::{map_wrapper_error, wrapper_error, Error, WrapperFailure};
use crate::fees::{check_fees, check_fees_spec, transfer_fee, transfer_fee_spec};
use crate::gas::{TxGasMeter, TX_SIZE_GAS_PER_BYTE};
use crate::payload::{apply_wasm_tx, wasm_outcome, written_entries, PayloadRun, TxResult};
use crate::protocol::{apply_protocol_votes, protocol_spec, EthereumTxData, ProtocolTxType};
use crate::state::{get_transfer_hash_from_storage, State};
use crate::storage::{entries_map, seq_keys_set};
use crate::tx::{fee_unshielding_section, get_fee_unshielding_transaction, Tx, TxType, WrapperTx};
use crate::vps::{empty_summary, VpsSummary};

verus! {

/// Arguments of a wrapper applied during block execution.
#[derive(Clone, Copy, Debug, PartialEq, Eq, Structural)]
pub struct WrapperArgs {
    /// The proposer of the current block, who receives the fees.
    pub block_proposer: Address,
    /// Whether the wrapper committed its fee unshielding.
    pub is_committed_fee_unshield: bool,
}

/// The runner's report of a fee-unshielding sub-execution: the hash of the
/// synthesized transfer transaction and its run.
#[derive(Debug)]
pub struct UnshieldRun {
    pub tx_hash: Digest,
    pub run: PayloadRun,
}

/// What the runner reported of the payloads that dispatching a transaction
/// executes: the inner payload, and the fee-unshielding transfer if any.
#[derive(Debug)]
pub struct TxRuns {
    pub inner: PayloadRun,
    pub unshield: Option<UnshieldRun>,
}

/// The write-log tiers and gas after fee unshielding.
pub struct UnshieldView {
    pub result: Result<bool, Error>,
    pub precommit: Map<Key, Amount>,
    pub tx: Map<Key, Amount>,
    pub gas: nat,
}

pub open spec fn min_u64(a: u64, b: u64) -> u64 {
    if a <= b {
        a
    } else {
        b
    }
}

/// Fee unshielding from state `s` with meter `meter`: the sub-execution
/// runs on a private meter bounded by the unshielding gas limit, with the
/// tx buffer precommitted; a rejected or failed run is rolled back to the
/// precommit buffer, and only a gas failure is an error.
pub open spec fn unshield_spec(s: State, replayed: Set<Digest>, meter: TxGasMeter, u: UnshieldRun) -> UnshieldView {
    let min_limit = min_u64(s.fee_unshielding_gas_limit, meter.tx_gas_limit);
    let unchanged = UnshieldView {
        result: Ok(false),
        precommit: s.write_log.precommit@,
        tx: s.write_log.tx@,
        gas: meter.transaction_gas as nat,
    };
    if meter.transaction_gas > min_limit {
        UnshieldView { result: Err(Error::GasError), ..unchanged }
    } else if !s.view_map().contains_key(Key::CodeName(TX_TRANSFER_WASM)) {
        unchanged
    } else {
        let p2 = s.write_log.precommit@.union_prefer_right(s.write_log.tx@);
        let base = s.storage@.union_prefer_right(s.write_log.block@).union_prefer_right(p2);
        let um = TxGasMeter { tx_gas_limit: min_limit, transaction_gas: meter.transaction_gas };
        match wasm_outcome(replayed, base, Seq::empty(), um, u.tx_hash, u.run) {
            Err(Error::GasError) => UnshieldView {
                result: Err(Error::GasError),
                precommit: p2,
                tx: Map::empty(),
                gas: if meter.transaction_gas + u.run.gas > min_limit {
                    meter.transaction_gas as nat
                } else {
                    (meter.transaction_gas + u.run.gas) as nat
                },
            },
            Err(_) => UnshieldView {
                result: Ok(false),
                precommit: p2,
                tx: Map::empty(),
                gas: if replayed.contains(u.tx_hash) {
                    meter.transaction_gas as nat
                } else {
                    (meter.transaction_gas + u.run.gas) as nat
                },
            },
            Ok((g, sum)) => UnshieldView {
                result: Ok(sum.rejected.len() == 0),
                precommit: p2,
                tx: if sum.rejected.len() == 0 {
                    entries_map(written_entries(Seq::empty(), u.run))
                } else {
                    Map::empty()
                },
                gas: g,
            },
        }
    }
}

/// A fee unshielding whose sub-execution VPs rejected, or that failed for
/// a reason other than gas, is rolled back: the writes made before it stay
/// in the precommit buffer, and none of its own writes remain.
pub proof fn lemma_unshield_rollback(s: State, replayed: Set<Digest>, meter: TxGasMeter, u: UnshieldRun)
    requires
        unshield_spec(s, replayed, meter, u).result == Ok::<bool, Error>(false),
        meter.transaction_gas <= min_u64(s.fee_unshielding_gas_limit, meter.tx_gas_limit),
        s.view_map().contains_key(Key::CodeName(TX_TRANSFER_WASM)),
    ensures
        unshield_spec(s, replayed, meter, u).precommit == s.write_log.precommit@.union_prefer_right(s.write_log.tx@),
        unshield_spec(s, replayed, meter, u).tx.is_empty(),
{
    assert(Map::<Key, Amount>::empty().is_empty());
}

/// Run the fee-unshielding sub-execution. Returns whether it was accepted;
/// fails only where it ran out of gas.
pub fn run_fee_unshielding(unshield: &UnshieldRun, tx_gas_meter: &mut TxGasMeter, state: &mut State) -> (r: Result<
    bool,
    Error,
>)
    requires
        old(state).wf(),
        old(tx_gas_meter).wf(),
    ensures
        final(state).wf(),
        final(tx_gas_meter).wf(),
        final(tx_gas_meter).tx_gas_limit == old(tx_gas_meter).tx_gas_limit,
        final(state).storage == old(state).storage,
        final(state).write_log.block == old(state).write_log.block,
        final(state).write_log.replay == old(state).write_log.replay,
        final(state).fee_unshielding_gas_limit == old(state).fee_unshielding_gas_limit,
        final(state).validators == old(state).validators,
        final(state).votes == old(state).votes,
        final(state).last_block_height == old(state).last_block_height,
        ({
            let v = unshield_spec(*old(state), old(state).write_log.replay@.to_set(), *old(tx_gas_meter), *unshield);
            &&& r == v.result
            &&& final(state).write_log.precommit@ == v.precommit
            &&& final(state).write_log.tx@ == v.tx
            &&& final(tx_gas_meter).transaction_gas == v.gas
        }),
{
    let fee_limit = state.fee_unshielding_gas_limit;
    let min_gas_limit = if fee_limit <= tx_gas_meter.tx_gas_limit {
        fee_limit
    } else {
        tx_gas_meter.tx_gas_limit
    };
    let mut unshield_gas_meter = TxGasMeter::new(min_gas_limit);
    unshield_gas_meter.copy_consumed_gas_from(tx_gas_meter)?;
    let result = match get_transfer_hash_from_storage(state) {
        None => false,
        Some(_) => {
            // The sub-execution's predicates must see a clean tx buffer:
            // earlier writes move to the precommit buffer, kept for later.
            state.write_log.precommit_tx();
            proof {
                assert(state.base_view() =~= old(state).storage@.union_prefer_right(
                    old(state).write_log.block@,
                ).union_prefer_right(
                    old(state).write_log.precommit@.union_prefer_right(old(state).write_log.tx@),
                ));
                assert(state.write_log.tx.entries@ =~= Seq::empty()) by {
                    if state.write_log.tx.entries@.len() > 0 {
                        crate::storage::lemma_entries_has_last(state.write_log.tx.entries@);
                    }
                }
            }
            match apply_wasm_tx(unshield.tx_hash, &unshield.run, &mut unshield_gas_meter, state) {
                Ok(result) => {
                    // not committed yet: the wrapper commits it with the fee
                    let accepted = result.is_accepted();
                    if !accepted {
                        state.write_log.drop_tx_keep_precommit();
                    }
                    accepted
                },
                Err(e) => {
                    state.write_log.drop_tx_keep_precommit();
                    if e == Error::GasError {
                        // the gas the sub-execution consumed is charged all the same
                        tx_gas_meter.copy_consumed_gas_from(&unshield_gas_meter)?;
                        return Err(e);
                    }
                    false
                },
            }
        },
    };
    tx_gas_meter.copy_consumed_gas_from(&unshield_gas_meter)?;
    Ok(result)
}

/// Fee unshielding where the wrapper names a shielded section and the
/// runner reported the sub-execution; otherwise nothing happens.
pub open spec fn unshield_or_skip(
    s: State,
    replayed: Set<Digest>,
    meter: TxGasMeter,
    masp: Option<Digest>,
    u: Option<UnshieldRun>,
) -> UnshieldView {
    if masp.is_some() && u.is_some() {
        unshield_spec(s, replayed, meter, u.unwrap())
    } else {
        UnshieldView {
            result: Ok(false),
            precommit: s.write_log.precommit@,
            tx: s.write_log.tx@,
            gas: meter.transaction_gas as nat,
        }
    }
}

/// The write-log, gas and wrapper arguments after charging a fee.
pub struct ChargeView {
    pub result: Result<(), Error>,
    pub keys: Set<Key>,
    pub block: Map<Key, Amount>,
    pub precommit: Map<Key, Amount>,
    pub tx: Map<Key, Amount>,
    pub gas: nat,
    pub args: Option<WrapperArgs>,
}

/// Charging a wrapper's fee: unshield if asked, then pay the proposer (or,
/// without a proposer, check the payer's balance); on success commit the
/// wrapper's writes, then report the unshielding outcome, failing only on
/// an unshielding that ran out of gas.
pub open spec fn charge_fee_spec(
    s: State,
    replayed: Set<Digest>,
    meter: TxGasMeter,
    w: WrapperTx,
    masp: Option<Digest>,
    u: Option<UnshieldRun>,
    args: Option<WrapperArgs>,
) -> ChargeView {
    let v = unshield_or_skip(s, replayed, meter, masp, u);
    let base1 = s.storage@.union_prefer_right(s.write_log.block@).union_prefer_right(v.precommit);
    let fee: (Result<(), Error>, Map<Key, Amount>) = match args {
        Some(a) => transfer_fee_spec(base1, v.tx, a.block_proposer, w),
        None => (check_fees_spec(base1.union_prefer_right(v.tx), w), v.tx),
    };
    if fee.0.is_err() {
        ChargeView {
            result: fee.0,
            keys: Set::empty(),
            block: s.write_log.block@,
            precommit: v.precommit,
            tx: fee.1,
            gas: v.gas,
            args,
        }
    } else {
        let committed = ChargeView {
            result: Ok(()),
            keys: fee.1.dom().union(v.precommit.dom()),
            block: s.write_log.block@.union_prefer_right(v.precommit).union_prefer_right(fee.1),
            precommit: Map::empty(),
            tx: Map::empty(),
            gas: v.gas,
            args,
        };
        match args {
            None => committed,
            Some(a) => match v.result {
                Ok(b) => ChargeView { args: Some(WrapperArgs { is_committed_fee_unshield: b, ..a }), ..committed },
                Err(e) => ChargeView { result: Err(e), ..committed },
            },
        }
    }
}

/// Charge the wrapper's fee. Returns the keys that the wrapper changed.
fn charge_fee(
    wrapper: &WrapperTx,
    masp_transaction: Option<Digest>,
    unshield: &Option<UnshieldRun>,
    tx_gas_meter: &mut TxGasMeter,
    state: &mut State,
    wrapper_args: &mut Option<WrapperArgs>,
) -> (r: Result<Vec<Key>, Error>)
    requires
        old(state).wf(),
        old(tx_gas_meter).wf(),
    ensures
        final(state).wf(),
        final(tx_gas_meter).wf(),
        final(tx_gas_meter).tx_gas_limit == old(tx_gas_meter).tx_gas_limit,
        final(state).storage == old(state).storage,
        final(state).write_log.replay == old(state).write_log.replay,
        final(state).fee_unshielding_gas_limit == old(state).fee_unshielding_gas_limit,
        final(state).validators == old(state).validators,
        final(state).votes == old(state).votes,
        final(state).last_block_height == old(state).last_block_height,
        ({
            let c = charge_fee_spec(
                *old(state),
                old(state).write_log.replay@.to_set(),
                *old(tx_gas_meter),
                *wrapper,
                masp_transaction,
                *unshield,
                *old(wrapper_args),
            );
            &&& r.is_ok() == c.result.is_ok()
            &&& r.is_err() ==> r == Err::<Vec<Key>, Error>(c.result->Err_0)
            &&& r.is_ok() ==> seq_keys_set(r.unwrap()@) == c.keys
            &&& final(state).write_log.block@ == c.block
            &&& final(state).write_log.precommit@ == c.precommit
            &&& final(state).write_log.tx@ == c.tx
            &&& final(tx_gas_meter).transaction_gas == c.gas
            &&& *final(wrapper_args) == c.args
        }),
{
    let valid_fee_unshielding = match (masp_transaction, unshield) {
        (Some(_), Some(u)) => run_fee_unshielding(u, tx_gas_meter, state),
        _ => Ok(false),
    };
    // Fees are charged or checked before any unshielding error is passed
    // on: a non-gas unshielding failure falls back to the transparent balance.
    match wrapper_args {
        Some(args) => transfer_fee(state, &args.block_proposer, wrapper)?,
        None => check_fees(state, wrapper)?,
    }
    let changed_keys = state.write_log.get_keys_with_precommit();
    // The wrapper's writes are committed whatever happens to the inner payload.
    state.write_log.commit_tx();
    // The flag is set only once the fee payment is committed; an
    // unshielding that ran out of gas fails the wrapper now.
    if let Some(args) = wrapper_args {
        args.is_committed_fee_unshield = valid_fee_unshielding?;
    }
    Ok(changed_keys)
}

/// Apply the wrapper of a transaction: write its hash to the replay index,
/// charge its fee, then charge the gas due for its `tx_len` bytes. Returns
/// the keys that the wrapper changed.
pub fn apply_wrapper_tx(
    tx: &Tx,
    wrapper: &WrapperTx,
    fee_unshield_transaction: Option<Digest>,
    unshield: &Option<UnshieldRun>,
    tx_len: usize,
    tx_gas_meter: &mut TxGasMeter,
    state: &mut State,
    wrapper_args: &mut Option<WrapperArgs>,
) -> (r: Result<Vec<Key>, Error>)
    requires
        old(state).wf(),
        old(tx_gas_meter).wf(),
    ensures
        final(state).wf(),
        final(tx_gas_meter).wf(),
        final(tx_gas_meter).tx_gas_limit == old(tx_gas_meter).tx_gas_limit,
        final(state).storage == old(state).storage,
        final(state).write_log.replay@.to_set() == old(state).write_log.replay@.to_set().insert(tx.header_hash),
        final(state).fee_unshielding_gas_limit == old(state).fee_unshielding_gas_limit,
        final(state).validators == old(state).validators,
        final(state).votes == old(state).votes,
        final(state).last_block_height == old(state).last_block_height,
        ({
            let c = charge_fee_spec(
                *old(state),
                old(state).write_log.replay@.to_set().insert(tx.header_hash),
                *old(tx_gas_meter),
                *wrapper,
                fee_unshield_transaction,
                *unshield,
                *old(wrapper_args),
            );
            let g = c.gas + tx_len * TX_SIZE_GAS_PER_BYTE;
            &&& final(state).write_log.block@ == c.block
            &&& final(state).write_log.precommit@ == c.precommit
            &&& final(state).write_log.tx@ == c.tx
            &&& *final(wrapper_args) == c.args
            &&& c.result.is_err() ==> r == Err::<Vec<Key>, Error>(c.result->Err_0)
                && final(tx_gas_meter).transaction_gas == c.gas
            &&& c.result.is_ok() && g > old(tx_gas_meter).tx_gas_limit ==> r == Err::<Vec<Key>, Error>(Error::GasError)
                && final(tx_gas_meter).transaction_gas == c.gas
            &&& c.result.is_ok() && g <= old(tx_gas_meter).tx_gas_limit ==> r.is_ok() && seq_keys_set(r.unwrap()@)
                == c.keys && final(tx_gas_meter).transaction_gas == g
        }),
{
    // the replay entry comes before any step that can fail
    state.write_log.write_tx_hash(tx.header_hash);
    let changed_keys = charge_fee(wrapper, fee_unshield_transaction, unshield, tx_gas_meter, state, wrapper_args)?;
    tx_gas_meter.add_wrapper_gas(tx_len)?;
    Ok(changed_keys)
}

/// Apply a protocol transaction: fold its vote extension into the tallies,
/// natively, without gas or validity predicates.
pub fn apply_protocol_tx(kind: ProtocolTxType, data: &Option<EthereumTxData>, state: &mut State) -> (r: Result<
    TxResult,
    Error,
>)
    ensures
        final(state).wf() == old(state).wf(),
        final(state).storage == old(state).storage,
        final(state).write_log == old(state).write_log,
        final(state).validators == old(state).validators,
        final(state).last_block_height == old(state).last_block_height,
        final(state).fee_unshielding_gas_limit == old(state).fee_unshielding_gas_limit,
        match protocol_spec(kind, *data, old(state).votes@, old(state).validators@, old(state).last_block_height) {
            Ok((votes, keys)) => {
                &&& r.is_ok()
                &&& r.unwrap().changed_keys@ == keys
                &&& r.unwrap().gas_used == 0
                &&& r.unwrap().wrapper_changed_keys@.len() == 0
                &&& r.unwrap().vps_result.summary() == empty_summary()
                &&& r.unwrap().initialized_accounts@.len() == 0
                &&& r.unwrap().ibc_events@.len() == 0
                &&& r.unwrap().eth_bridge_events@.len() == 0
                &&& final(state).votes@ == votes
            },
            Err(e) => r == Err::<TxResult, Error>(e) && final(state).votes@ == old(state).votes@,
        },
{
    let keys = apply_protocol_votes(kind, data, state)?;
    let mut result = TxResult::empty();
    result.changed_keys = keys;
    Ok(result)
}

/// The gas used and the validity predicates' summary of a result.
pub open spec fn outcome_of(r: Result<TxResult, Error>) -> Result<(nat, VpsSummary), Error> {
    match r {
        Ok(t) => Ok((t.gas_used as nat, t.vps_result.summary())),
        Err(e) => Err(e),
    }
}

/// The gas a meter reads after a failed payload pass: what it read before,
/// plus the payload's gas where the run was not a replay and fitted.
pub open spec fn payload_error_gas(replayed: Set<Digest>, tx_hash: Digest, meter: TxGasMeter, run_gas: u64) -> int {
    if replayed.contains(tx_hash) || meter.transaction_gas + run_gas > meter.tx_gas_limit {
        meter.transaction_gas as int
    } else {
        meter.transaction_gas + run_gas
    }
}

/// A wrapper whose hash is already in the replay index is refused and
/// changes nothing; any other wrapper leaves its hash in the index.
pub open spec fn replay_guarded(old: State, tx: Tx, r: Result<TxResult, Error>, new: State) -> bool {
    match tx.header {
        TxType::Wrapper(_) => {
            &&& new.write_log.replay@.contains(tx.header_hash)
            &&& old.write_log.replay@.contains(tx.header_hash) ==> r == Err::<TxResult, Error>(
                Error::WrapperRunnerError(WrapperFailure::Replay(tx.header_hash)),
            ) && new == old
        },
        _ => true,
    }
}

/// Dispatch a transaction by its header: a raw payload runs directly; a
/// protocol transaction folds its votes; a wrapper is applied (replay
/// entry, fees, wrapper gas, all committed) and its inner payload then runs
/// on the same gas meter. `runs` holds what the runner reported of the
/// payloads, and `tx_len` is the size of the encoded transaction.
pub fn dispatch_tx(
    tx: &Tx,
    tx_len: usize,
    tx_gas_meter: &mut TxGasMeter,
    state: &mut State,
    runs: &TxRuns,
    wrapper_args: &mut Option<WrapperArgs>,
) -> (r: Result<TxResult, Error>)
    requires
        old(state).wf(),
        old(tx_gas_meter).wf(),
    ensures
        final(state).wf(),
        final(tx_gas_meter).wf(),
        final(tx_gas_meter).tx_gas_limit == old(tx_gas_meter).tx_gas_limit,
        final(state).storage == old(state).storage,
        r.is_ok() ==> r.unwrap().gas_used <= old(tx_gas_meter).tx_gas_limit,
        replay_guarded(*old(state), *tx, r, *final(state)),
        match tx.header {
            TxType::Raw => {
                &&& outcome_of(r) == wasm_outcome(
                    old(state).write_log.replay@.to_set(),
                    old(state).base_view(),
                    old(state).write_log.tx.entries@,
                    *old(tx_gas_meter),
                    tx.raw_header_hash,
                    runs.inner,
                )
                &&& r.is_ok() ==> final(tx_gas_meter).transaction_gas == r.unwrap().gas_used
                &&& r.is_err() ==> final(state).write_log.tx@.is_empty()
                    && final(tx_gas_meter).transaction_gas == payload_error_gas(
                    old(state).write_log.replay@.to_set(),
                    tx.raw_header_hash,
                    *old(tx_gas_meter),
                    runs.inner.gas,
                )
                &&& final(state).write_log.block == old(state).write_log.block
                &&& final(state).write_log.precommit == old(state).write_log.precommit
                &&& final(state).write_log.replay == old(state).write_log.replay
                &&& final(state).votes == old(state).votes
                &&& *final(wrapper_args) == *old(wrapper_args)
            },
            TxType::Protocol(kind) => {
                &&& *final(tx_gas_meter) == *old(tx_gas_meter)
                &&& *final(wrapper_args) == *old(wrapper_args)
                &&& final(state).write_log == old(state).write_log
                &&& match protocol_spec(
                    kind,
                    tx.data,
                    old(state).votes@,
                    old(state).validators@,
                    old(state).last_block_height,
                ) {
                    Ok((votes, keys)) => r.is_ok() && r.unwrap().changed_keys@ == keys && final(state).votes@ == votes,
                    Err(e) => r == Err::<TxResult, Error>(e) && final(state).votes@ == old(state).votes@,
                }
            },
            TxType::Wrapper(w) => (old(state).write_log.replay@.contains(tx.header_hash) ==> *final(tx_gas_meter)
                == *old(tx_gas_meter) && *final(wrapper_args) == *old(wrapper_args)) && (
            !old(state).write_log.replay@.contains(tx.header_hash) ==> {
                let replayed = old(state).write_log.replay@.to_set().insert(tx.header_hash);
                let c = charge_fee_spec(
                    *old(state),
                    replayed,
                    *old(tx_gas_meter),
                    w,
                    fee_unshielding_section(*tx, w),
                    runs.unshield,
                    *old(wrapper_args),
                );
                let g = c.gas + tx_len * TX_SIZE_GAS_PER_BYTE;
                &&& *final(wrapper_args) == c.args
                &&& final(state).write_log.block@ == c.block
                &&& final(state).write_log.precommit@ == c.precommit
                &&& final(state).votes == old(state).votes
                &&& c.result.is_err() ==> {
                    &&& r == Err::<TxResult, Error>(wrapper_error(c.result->Err_0))
                    &&& final(tx_gas_meter).transaction_gas == c.gas
                    &&& final(state).write_log.tx@ == c.tx
                }
                &&& c.result.is_ok() && g > old(tx_gas_meter).tx_gas_limit ==> {
                    &&& r == Err::<TxResult, Error>(Error::WrapperRunnerError(WrapperFailure::Gas))
                    &&& final(tx_gas_meter).transaction_gas == c.gas
                    &&& final(state).write_log.tx@ == c.tx
                }
                &&& c.result.is_ok() && g <= old(tx_gas_meter).tx_gas_limit ==> {
                    let m = TxGasMeter { tx_gas_limit: old(tx_gas_meter).tx_gas_limit, transaction_gas: g as u64 };
                    &&& outcome_of(r) == wasm_outcome(
                        replayed,
                        old(state).storage@.union_prefer_right(c.block),
                        Seq::empty(),
                        m,
                        tx.raw_header_hash,
                        runs.inner,
                    )
                    &&& r.is_ok() ==> seq_keys_set(r.unwrap().wrapper_changed_keys@) == c.keys
                        && final(tx_gas_meter).transaction_gas == r.unwrap().gas_used
                    &&& r.is_err() ==> final(state).write_log.tx@.is_empty()
                        && final(tx_gas_meter).transaction_gas == payload_error_gas(
                        replayed,
                        tx.raw_header_hash,
                        m,
                        runs.inner.gas,
                    )
                }
            }),
        },
{
    match tx.header {
        // raw transactions are meant for governance proposals only
        TxType::Raw => apply_wasm_tx(tx.raw_header_hash, &runs.inner, tx_gas_meter, state),
        TxType::Protocol(kind) => apply_protocol_tx(kind, &tx.data, state),
        TxType::Wrapper(wrapper) => {
            if state.write_log.has_replay_protection_entry(tx.header_hash) {
                return Err(Error::WrapperRunnerError(WrapperFailure::Replay(tx.header_hash)));
            }
            let fee_unshielding_transaction = get_fee_unshielding_transaction(tx, &wrapper);
            let changed_keys = match apply_wrapper_tx(
                tx,
                &wrapper,
                fee_unshielding_transaction,
                &runs.unshield,
                tx_len,
                tx_gas_meter,
                state,
                wrapper_args,
            ) {
                Ok(keys) => keys,
                Err(e) => {
                    assert(state.write_log.replay@.to_set().contains(tx.header_hash));
                    return Err(map_wrapper_error(e));
                },
            };
            assert(state.write_log.replay@.to_set().contains(tx.header_hash));
            proof {
                assert(state.write_log.tx.entries@ =~= Seq::empty()) by {
                    if state.write_log.tx.entries@.len() > 0 {
                        crate::storage::lemma_entries_has_last(state.write_log.tx.entries@);
                    }
                }
                assert(state.base_view() =~= old(state).storage@.union_prefer_right(state.write_log.block@));
            }
            let mut inner_res = apply_wasm_tx(tx.raw_header_hash, &runs.inner, tx_gas_meter, state)?;
            inner_res.wrapper_changed_keys = changed_keys;
            Ok(inner_res)
        },
    }
}

/// Dispatching the same wrapper twice in a block: the second dispatch is
/// refused as a replay and leaves the state as the first one left it.
pub proof fn lemma_replay_immunity(
    tx: Tx,
    s0: State,
    r1: Result<TxResult, Error>,
    s1: State,
    r2: Result<TxResult, Error>,
    s2: State,
)
    requires
        tx.header is Wrapper,
        replay_guarded(s0, tx, r1, s1),
        replay_guarded(s1, tx, r2, s2),
    ensures
        r2 == Err::<TxResult, Error>(Error::WrapperRunnerError(WrapperFailure::Replay(tx.header_hash))),
        s2 == s1,
{
}

} // verus!
