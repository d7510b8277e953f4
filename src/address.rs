//! Addresses, hashes and storage keys.
use vstd::prelude::*;

verus! {

/// A cryptographic hash, held as an integer digest.
pub type Digest = u128;

/// A token amount.
pub type Amount = u128;

/// The closed set of internal addresses, each guarded by a built-in
/// validity predicate or by a policy sentinel.
#[derive(Clone, Copy, Debug, PartialEq, Eq, Structural)]
pub enum InternalAddress {
    PoS,
    PosSlashPool,
    Parameters,
    Ibc,
    IbcToken(u64),
    Governance,
    EthBridge,
    EthBridgePool,
    Erc20(u64),
    Nut(u64),
    Multitoken,
    Pgf,
    Masp,
    TempStorage,
}

/// A tagged account identifier.
#[derive(Clone, Copy, Debug, PartialEq, Eq, Structural)]
pub enum Address {
    Implicit(u64),
    Established(u64),
    Internal(InternalAddress),
}

/// What a tally of votes is about.
#[derive(Clone, Copy, Debug, PartialEq, Eq, Structural)]
pub enum VoteSubject {
    /// An observed Ethereum event, by its digest.
    EthEvent(Digest),
    /// A bridge-pool root attested at a nonce and block height.
    BridgePoolRoot { root: Digest, nonce: u64, height: u64 },
    /// The validator-set-update proof of a signing epoch.
    ValSetUpdate(u64),
}

/// A storage key.
#[derive(Clone, Copy, Debug, PartialEq, Eq, Structural)]
pub enum Key {
    /// The balance of `owner` in `token`.
    Balance { token: Address, owner: Address },
    /// The code hash of the validity predicate bound to an account.
    Vp(Address),
    /// The code hash registered under a well-known code name.
    CodeName(u64),
    /// The tally of votes on a subject.
    Tally(VoteSubject),
    /// Any other key in an address's key-space.
    Sub(Address, u64),
}

/// The canonical code name of the transfer transaction.
pub const TX_TRANSFER_WASM: u64 = 1;

/// The position of an internal address in the canonical order: its kind,
/// then its payload.
pub open spec fn internal_key(k: InternalAddress) -> (u8, u64) {
    match k {
        InternalAddress::PoS => (0, 0),
        InternalAddress::PosSlashPool => (1, 0),
        InternalAddress::Parameters => (2, 0),
        InternalAddress::Ibc => (3, 0),
        InternalAddress::IbcToken(x) => (4, x),
        InternalAddress::Governance => (5, 0),
        InternalAddress::EthBridge => (6, 0),
        InternalAddress::EthBridgePool => (7, 0),
        InternalAddress::Erc20(x) => (8, x),
        InternalAddress::Nut(x) => (9, x),
        InternalAddress::Multitoken => (10, 0),
        InternalAddress::Pgf => (11, 0),
        InternalAddress::Masp => (12, 0),
        InternalAddress::TempStorage => (13, 0),
    }
}

/// The position of an address in the canonical order: implicit, then
/// established, then internal addresses, each by its payload.
pub open spec fn address_key(a: Address) -> (u8, u8, u64) {
    match a {
        Address::Implicit(x) => (0, 0, x),
        Address::Established(x) => (1, 0, x),
        Address::Internal(k) => (2, internal_key(k).0, internal_key(k).1),
    }
}

/// The canonical strict order on addresses: lexicographic on `address_key`.
pub open spec fn address_lt(a: Address, b: Address) -> bool {
    let (a0, a1, a2) = address_key(a);
    let (b0, b1, b2) = address_key(b);
    a0 < b0 || (a0 == b0 && (a1 < b1 || (a1 == b1 && a2 < b2)))
}

/// `address_lt` is a strict total order.
pub proof fn lemma_address_order()
    ensures
        forall|a: Address| !#[trigger] address_lt(a, a),
        forall|a: Address, b: Address| #[trigger] address_lt(a, b) ==> !address_lt(b, a),
        forall|a: Address, b: Address, c: Address|
            #[trigger] address_lt(a, b) && #[trigger] address_lt(b, c) ==> address_lt(a, c),
        forall|a: Address, b: Address| a != b ==> #[trigger] address_lt(a, b) || #[trigger] address_lt(b, a),
{
    assert forall|a: Address, b: Address| a != b implies #[trigger] address_lt(a, b) || #[trigger] address_lt(b, a) by {
        lemma_address_key_injective(a, b);
    }
}

proof fn lemma_address_key_injective(a: Address, b: Address)
    ensures
        address_key(a) == address_key(b) ==> a == b,
{
    if address_key(a) == address_key(b) {
        match a {
            Address::Internal(ka) => match b {
                Address::Internal(kb) => {
                    assert(internal_key(ka) == internal_key(kb));
                },
                _ => {},
            },
            _ => {},
        }
    }
}

fn internal_key_of(k: &InternalAddress) -> (r: (u8, u64))
    ensures
        r == internal_key(*k),
{
    match k {
        InternalAddress::PoS => (0, 0),
        InternalAddress::PosSlashPool => (1, 0),
        InternalAddress::Parameters => (2, 0),
        InternalAddress::Ibc => (3, 0),
        InternalAddress::IbcToken(x) => (4, *x),
        InternalAddress::Governance => (5, 0),
        InternalAddress::EthBridge => (6, 0),
        InternalAddress::EthBridgePool => (7, 0),
        InternalAddress::Erc20(x) => (8, *x),
        InternalAddress::Nut(x) => (9, *x),
        InternalAddress::Multitoken => (10, 0),
        InternalAddress::Pgf => (11, 0),
        InternalAddress::Masp => (12, 0),
        InternalAddress::TempStorage => (13, 0),
    }
}

fn address_key_of(a: &Address) -> (r: (u8, u8, u64))
    ensures
        r == address_key(*a),
{
    match a {
        Address::Implicit(x) => (0, 0, *x),
        Address::Established(x) => (1, 0, *x),
        Address::Internal(k) => {
            let (k0, k1) = internal_key_of(k);
            (2, k0, k1)
        },
    }
}

/// Whether `a` comes before `b` in the canonical order.
pub fn address_less(a: &Address, b: &Address) -> (r: bool)
    ensures
        r == address_lt(*a, *b),
{
    let (a0, a1, a2) = address_key_of(a);
    let (b0, b1, b2) = address_key_of(b);
    a0 < b0 || (a0 == b0 && (a1 < b1 || (a1 == b1 && a2 < b2)))
}

/// The addresses whose validity predicates a write to `k` triggers.
pub open spec fn key_addresses(k: Key) -> Seq<Address> {
    match k {
        Key::Balance { token, owner } => seq![
            Address::Internal(InternalAddress::Multitoken),
            token,
            owner,
        ],
        Key::Vp(a) => seq![a],
        Key::CodeName(_) => seq![],
        Key::Tally(_) => seq![Address::Internal(InternalAddress::EthBridge)],
        Key::Sub(a, _) => seq![a],
    }
}

/// Executable form of `key_addresses`.
pub fn addresses_of_key(k: &Key) -> (r: Vec<Address>)
    ensures
        r@ == key_addresses(*k),
{
    match k {
        Key::Balance { token, owner } => vec![
            Address::Internal(InternalAddress::Multitoken),
            *token,
            *owner,
        ],
        Key::Vp(a) => vec![*a],
        Key::CodeName(_) => Vec::new(),
        Key::Tally(_) => vec![Address::Internal(InternalAddress::EthBridge)],
        Key::Sub(a, _) => vec![*a],
    }
}

} // verus!
