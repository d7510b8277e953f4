//! Fee checks and transfers through the tx buffer of the write-log.
use vstd::prelude::*;
use crate::address::{Address, Amount, Key};
use crate::error::{Error, FeeFailure};
use crate::state::{balance_in, State};
use crate::tx::{tx_fee, WrapperTx};

verus! {

/// `new` differs from `old` at most in the tx buffer.
pub open spec fn same_but_tx(old: State, new: State) -> bool {
    &&& new.wf()
    &&& new.storage == old.storage
    &&& new.write_log.precommit == old.write_log.precommit
    &&& new.write_log.block == old.write_log.block
    &&& new.write_log.replay == old.write_log.replay
    &&& new.fee_unshielding_gas_limit == old.fee_unshielding_gas_limit
    &&& new.validators == old.validators
    &&& new.votes == old.votes
    &&& new.last_block_height == old.last_block_height
}

/// Outcome of moving `amount` of `token` from `src` to `dest`, with `base`
/// below the tx buffer `tx`: the result and the tx buffer afterwards.
pub open spec fn transfer_spec(
    base: Map<Key, Amount>,
    tx: Map<Key, Amount>,
    token: Address,
    src: Address,
    dest: Address,
    amount: Amount,
) -> (Result<(), Error>, Map<Key, Amount>) {
    let bs = balance_in(base.union_prefer_right(tx), token, src);
    let bd = balance_in(base.union_prefer_right(tx), token, dest);
    if bs < amount {
        (Err(Error::FeeError(FeeFailure::InsufficientSourceBalance)), tx)
    } else if src == dest {
        (Ok(()), tx)
    } else if bd + amount > u128::MAX {
        (Err(Error::FeeError(FeeFailure::DestinationOverflow)), tx)
    } else {
        (
            Ok(()),
            tx.insert(Key::Balance { token, owner: src }, (bs - amount) as Amount).insert(
                Key::Balance { token, owner: dest },
                (bd + amount) as Amount,
            ),
        )
    }
}

/// Outcome of paying a wrapper's fee to the block proposer: the whole fee
/// where the payer holds it; otherwise all the payer holds, and a failure.
pub open spec fn transfer_fee_spec(base: Map<Key, Amount>, tx: Map<Key, Amount>, proposer: Address, w: WrapperTx) -> (
    Result<(), Error>,
    Map<Key, Amount>,
) {
    if tx_fee(w) > u128::MAX {
        (Err(Error::FeeError(FeeFailure::FeeOverflow)), tx)
    } else {
        let bal = balance_in(base.union_prefer_right(tx), w.fee.token, w.fee_payer);
        if bal >= tx_fee(w) {
            transfer_spec(base, tx, w.fee.token, w.fee_payer, proposer, tx_fee(w) as Amount)
        } else {
            let t = transfer_spec(base, tx, w.fee.token, w.fee_payer, proposer, bal);
            (
                if t.0.is_err() {
                    t.0
                } else {
                    Err(Error::FeeError(FeeFailure::InsufficientBalance))
                },
                t.1,
            )
        }
    }
}

/// Whether the payer can afford the wrapper's fee.
pub open spec fn check_fees_spec(view: Map<Key, Amount>, w: WrapperTx) -> Result<(), Error> {
    if tx_fee(w) > u128::MAX {
        Err(Error::FeeError(FeeFailure::FeeOverflow))
    } else if balance_in(view, w.fee.token, w.fee_payer) >= tx_fee(w) {
        Ok(())
    } else {
        Err(Error::FeeError(FeeFailure::InsufficientBalance))
    }
}

/// A payer who cannot cover the fee has everything it holds moved to the
/// proposer, and the payment fails (where the proposer's balance can take it).
pub proof fn lemma_fee_drain(base: Map<Key, Amount>, tx: Map<Key, Amount>, proposer: Address, w: WrapperTx)
    requires
        tx_fee(w) <= u128::MAX,
        balance_in(base.union_prefer_right(tx), w.fee.token, w.fee_payer) < tx_fee(w),
        w.fee_payer != proposer,
        balance_in(base.union_prefer_right(tx), w.fee.token, proposer) + balance_in(
            base.union_prefer_right(tx),
            w.fee.token,
            w.fee_payer,
        ) <= u128::MAX,
    ensures
        ({
            let (r, t) = transfer_fee_spec(base, tx, proposer, w);
            let before = base.union_prefer_right(tx);
            let after = base.union_prefer_right(t);
            &&& r == Err::<(), Error>(Error::FeeError(FeeFailure::InsufficientBalance))
            &&& balance_in(after, w.fee.token, w.fee_payer) == 0
            &&& balance_in(after, w.fee.token, proposer) == balance_in(before, w.fee.token, proposer)
                + balance_in(before, w.fee.token, w.fee_payer)
        }),
{
    let before = base.union_prefer_right(tx);
    let bs = balance_in(before, w.fee.token, w.fee_payer);
    let bd = balance_in(before, w.fee.token, proposer);
    let ks = Key::Balance { token: w.fee.token, owner: w.fee_payer };
    let kd = Key::Balance { token: w.fee.token, owner: proposer };
    let t = tx.insert(ks, (bs - bs) as Amount).insert(kd, (bd + bs) as Amount);
    assert(base.union_prefer_right(t) =~= before.insert(ks, (bs - bs) as Amount).insert(kd, (bd + bs) as Amount));
    assert(ks != kd);
}

/// Move `amount` of `token` from `src` to `dest`, writing both balances to
/// the tx buffer. Nothing is written where the source holds too little or
/// the destination would overflow.
pub fn token_transfer(state: &mut State, token: &Address, src: &Address, dest: &Address, amount: Amount) -> (r:
    Result<(), Error>)
    requires
        old(state).wf(),
    ensures
        same_but_tx(*old(state), *final(state)),
        (r, final(state).write_log.tx@) == transfer_spec(old(state).base_view(), old(state).write_log.tx@, *token, *src, *dest, amount),
{
    let src_balance = state.read_balance(token, src);
    if src_balance < amount {
        return Err(Error::FeeError(FeeFailure::InsufficientSourceBalance));
    }
    if src == dest {
        return Ok(());
    }
    let dest_balance = state.read_balance(token, dest);
    match dest_balance.checked_add(amount) {
        Some(new_dest_balance) => {
            state.write_log.write(Key::Balance { token: *token, owner: *src }, src_balance - amount);
            state.write_log.write(Key::Balance { token: *token, owner: *dest }, new_dest_balance);
            Ok(())
        },
        None => Err(Error::FeeError(FeeFailure::DestinationOverflow)),
    }
}

/// Pay the wrapper's fee from its payer to the block proposer.
pub fn transfer_fee(state: &mut State, block_proposer: &Address, wrapper: &WrapperTx) -> (r: Result<(), Error>)
    requires
        old(state).wf(),
    ensures
        same_but_tx(*old(state), *final(state)),
        (r, final(state).write_log.tx@) == transfer_fee_spec(old(state).base_view(), old(state).write_log.tx@, *block_proposer, *wrapper),
{
    let balance = state.read_balance(&wrapper.fee.token, &wrapper.fee_payer);
    match wrapper.get_tx_fee() {
        Some(fees) => {
            if balance >= fees {
                token_transfer(state, &wrapper.fee.token, &wrapper.fee_payer, block_proposer, fees)
            } else {
                // The payer cannot cover the fee: drain what it holds, so
                // that the same payer cannot be charged again for free.
                token_transfer(state, &wrapper.fee.token, &wrapper.fee_payer, block_proposer, balance)?;
                Err(Error::FeeError(FeeFailure::InsufficientBalance))
            }
        },
        None => Err(Error::FeeError(FeeFailure::FeeOverflow)),
    }
}

/// Check that the payer's transparent balance covers the wrapper's fee.
pub fn check_fees(state: &State, wrapper: &WrapperTx) -> (r: Result<(), Error>)
    requires
        state.wf(),
    ensures
        r == check_fees_spec(state.view_map(), *wrapper),
{
    let balance = state.read_balance(&wrapper.fee.token, &wrapper.fee_payer);
    match wrapper.get_tx_fee() {
        Some(fees) => {
            if balance >= fees {
                Ok(())
            } else {
                Err(Error::FeeError(FeeFailure::InsufficientBalance))
            }
        },
        None => Err(Error::FeeError(FeeFailure::FeeOverflow)),
    }
}

} // verus!
