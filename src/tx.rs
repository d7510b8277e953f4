//! Transaction descriptors.
use vstd::prelude::*;
use crate::address::{Address, Amount, Digest};
use crate::protocol::{EthereumTxData, ProtocolTxType};

verus! {

/// What a transaction section holds.
#[derive(Clone, Copy, Debug, PartialEq, Eq, Structural)]
pub enum SectionKind {
    Code,
    Data,
    Signature,
    /// A shielded (MASP) transaction, by its identifier.
    MaspTx(Digest),
}

/// A section of a transaction, addressed by its hash.
#[derive(Clone, Copy, Debug, PartialEq, Eq, Structural)]
pub struct Section {
    pub hash: Digest,
    pub kind: SectionKind,
}

/// The fee a wrapper offers: a price per gas unit, in a token.
#[derive(Clone, Copy, Debug, PartialEq, Eq, Structural)]
pub struct Fee {
    pub amount_per_gas_unit: Amount,
    pub token: Address,
}

/// The fee-paying envelope of an inner transaction.
#[derive(Clone, Copy, Debug, PartialEq, Eq, Structural)]
pub struct WrapperTx {
    pub fee: Fee,
    pub fee_payer: Address,
    pub gas_limit: u64,
    /// The section whose shielded transaction funds the fee, if any.
    pub unshield_section_hash: Option<Digest>,
}

/// The fee that a wrapper owes: its price per gas unit times its gas limit.
pub open spec fn tx_fee(w: WrapperTx) -> int {
    w.fee.amount_per_gas_unit * w.gas_limit
}

impl WrapperTx {
    /// The fee owed; `None` where it overflows.
    pub fn get_tx_fee(&self) -> (r: Option<Amount>)
        ensures
            r == (if tx_fee(*self) <= u128::MAX {
                Some(tx_fee(*self) as Amount)
            } else {
                None::<Amount>
            }),
    {
        self.fee.amount_per_gas_unit.checked_mul(self.gas_limit as u128)
    }
}

/// The header variant of a transaction.
#[derive(Clone, Copy, Debug, PartialEq, Eq, Structural)]
pub enum TxType {
    /// An inner payload, allowed only for governance-originated code.
    Raw,
    Wrapper(WrapperTx),
    Protocol(ProtocolTxType),
}

/// An immutable transaction descriptor.
#[derive(Debug)]
pub struct Tx {
    pub header: TxType,
    /// Identity of the whole transaction, wrapper included.
    pub header_hash: Digest,
    /// Identity of the inner payload, used for replay protection.
    pub raw_header_hash: Digest,
    pub sections: Vec<Section>,
    /// The decoded data section of a protocol transaction.
    pub data: Option<EthereumTxData>,
}

/// The first section of `secs` with hash `h`.
pub open spec fn section_of(secs: Seq<Section>, h: Digest) -> Option<Section>
    decreases secs.len(),
{
    if secs.len() == 0 {
        None
    } else if secs[0].hash == h {
        Some(secs[0])
    } else {
        section_of(secs.subrange(1, secs.len() as int), h)
    }
}

impl Tx {
    /// The section with hash `h`, if any.
    pub fn get_section(&self, h: Digest) -> (r: Option<Section>)
        ensures
            r == section_of(self.sections@, h),
    {
        let mut i: usize = 0;
        assert(self.sections@.subrange(0, self.sections@.len() as int) =~= self.sections@);
        while i < self.sections.len()
            invariant
                i <= self.sections@.len(),
                section_of(self.sections@, h) == section_of(
                    self.sections@.subrange(i as int, self.sections@.len() as int),
                    h,
                ),
            decreases self.sections@.len() - i,
        {
            let ghost rest = self.sections@.subrange(i as int, self.sections@.len() as int);
            assert(rest.subrange(1, rest.len() as int) =~= self.sections@.subrange(
                i as int + 1,
                self.sections@.len() as int,
            ));
            if self.sections[i].hash == h {
                return Some(self.sections[i]);
            }
            i = i + 1;
        }
        None
    }
}

/// The shielded transaction that funds a wrapper's fee: the section named
/// by its unshield hash, where that section is a MASP transaction.
pub open spec fn fee_unshielding_section(tx: Tx, w: WrapperTx) -> Option<Digest> {
    match w.unshield_section_hash {
        None => None,
        Some(h) => match section_of(tx.sections@, h) {
            Some(Section { hash: _, kind: SectionKind::MaspTx(id) }) => Some(id),
            _ => None,
        },
    }
}

/// Retrieve the shielded transaction for fee unshielding, if present.
pub fn get_fee_unshielding_transaction(tx: &Tx, wrapper: &WrapperTx) -> (r: Option<Digest>)
    ensures
        r == fee_unshielding_section(*tx, *wrapper),
{
    match wrapper.unshield_section_hash {
        None => None,
        Some(h) => match tx.get_section(h) {
            Some(Section { hash: _, kind: SectionKind::MaspTx(id) }) => Some(id),
            _ => None,
        },
    }
}

} // verus!
