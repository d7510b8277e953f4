//! Gas metering with a hard ceiling.
use vstd::prelude::*;
use crate::error::Error;

verus! {

/// Gas charged per byte of a wrapper transaction.
pub const TX_SIZE_GAS_PER_BYTE: u64 = 10;

/// A transaction's gas meter: consumption never exceeds the limit.
#[derive(Clone, Copy, Debug, PartialEq, Eq, Structural)]
pub struct TxGasMeter {
    pub tx_gas_limit: u64,
    pub transaction_gas: u64,
}

impl TxGasMeter {
    pub open spec fn wf(&self) -> bool {
        self.transaction_gas <= self.tx_gas_limit
    }

    pub fn new(tx_gas_limit: u64) -> (r: TxGasMeter)
        ensures
            r.wf(),
            r.tx_gas_limit == tx_gas_limit,
            r.transaction_gas == 0,
    {
        TxGasMeter { tx_gas_limit, transaction_gas: 0 }
    }

    /// Charge `gas`; fails, leaving the meter as it was, where the total
    /// would exceed the limit.
    pub fn consume(&mut self, gas: u64) -> (r: Result<(), Error>)
        requires
            old(self).wf(),
        ensures
            final(self).wf(),
            final(self).tx_gas_limit == old(self).tx_gas_limit,
            r.is_ok() == (old(self).transaction_gas + gas <= old(self).tx_gas_limit),
            r.is_ok() ==> final(self).transaction_gas == old(self).transaction_gas + gas,
            r.is_err() ==> r == Err::<(), Error>(Error::GasError) && *final(self) == *old(self),
    {
        if gas > self.tx_gas_limit - self.transaction_gas {
            Err(Error::GasError)
        } else {
            self.transaction_gas = self.transaction_gas + gas;
            Ok(())
        }
    }

    /// Charge the gas due for a wrapper of `tx_len` bytes.
    pub fn add_wrapper_gas(&mut self, tx_len: usize) -> (r: Result<(), Error>)
        requires
            old(self).wf(),
        ensures
            final(self).wf(),
            final(self).tx_gas_limit == old(self).tx_gas_limit,
            r.is_ok() == (old(self).transaction_gas + tx_len * TX_SIZE_GAS_PER_BYTE <= old(self).tx_gas_limit),
            r.is_ok() ==> final(self).transaction_gas == old(self).transaction_gas + tx_len * TX_SIZE_GAS_PER_BYTE,
            r.is_err() ==> r == Err::<(), Error>(Error::GasError) && *final(self) == *old(self),
    {
        let len = tx_len as u64;
        if tx_len as u128 > u64::MAX as u128 {
            return Err(Error::GasError);
        }
        match len.checked_mul(TX_SIZE_GAS_PER_BYTE) {
            Some(gas) => self.consume(gas),
            None => Err(Error::GasError),
        }
    }

    /// Charge the gas of a transaction's validity predicates.
    pub fn add_vps_gas(&mut self, gas: u64) -> (r: Result<(), Error>)
        requires
            old(self).wf(),
        ensures
            final(self).wf(),
            final(self).tx_gas_limit == old(self).tx_gas_limit,
            r.is_ok() == (old(self).transaction_gas + gas <= old(self).tx_gas_limit),
            r.is_ok() ==> final(self).transaction_gas == old(self).transaction_gas + gas,
            r.is_err() ==> r == Err::<(), Error>(Error::GasError) && *final(self) == *old(self),
    {
        self.consume(gas)
    }

    /// Take over the consumption of `other`; fails, leaving the meter as it
    /// was, where that exceeds this meter's limit.
    pub fn copy_consumed_gas_from(&mut self, other: &TxGasMeter) -> (r: Result<(), Error>)
        requires
            old(self).wf(),
        ensures
            final(self).wf(),
            final(self).tx_gas_limit == old(self).tx_gas_limit,
            r.is_ok() == (other.transaction_gas <= old(self).tx_gas_limit),
            r.is_ok() ==> final(self).transaction_gas == other.transaction_gas,
            r.is_err() ==> r == Err::<(), Error>(Error::GasError) && *final(self) == *old(self),
    {
        if other.transaction_gas > self.tx_gas_limit {
            Err(Error::GasError)
        } else {
            self.transaction_gas = other.transaction_gas;
            Ok(())
        }
    }

    pub fn get_tx_consumed_gas(&self) -> (r: u64)
        ensures
            r == self.transaction_gas,
    {
        self.transaction_gas
    }
}

} // verus!
