//! Execution of an inner payload: replay check, the sandboxed run, and the
//! validity predicates of the resulting verifier set.
use vstd::prelude::*;
use crate::address::{address_less, address_lt, addresses_of_key, key_addresses, lemma_address_order, Address, Amount, Digest, Key};
use crate::error::{map_tx_runner_error, tx_runner_error, Error, RunnerError};
use crate::gas::TxGasMeter;
use crate::state::State;
use crate::storage::{entries_map, entry_keys, put_all, seq_keys_set, WriteLog};
use crate::vps::{empty_summary, execute_vps, lemma_fold_gas_bound, vps_fold, VpReport, VpsResult, VpsSummary};

verus! {

/// What the sandboxed runner reported of a payload run: the writes it made,
/// in order, the verifiers the payload asked for, the gas it consumed, its
/// failure if any, and the reports of the validity predicates run on its
/// outcome.
#[derive(Debug)]
pub struct PayloadRun {
    pub writes: Vec<(Key, Amount)>,
    pub verifiers: Vec<Address>,
    pub gas: u64,
    pub failure: Option<RunnerError>,
    pub vp_reports: Vec<VpReport>,
    /// Accounts the payload created.
    pub initialized_accounts: Vec<Address>,
    /// IBC events the payload emitted.
    pub ibc_events: Vec<IbcEvent>,
}

/// An IBC event emitted by a payload: its type and a digest of its attributes.
#[derive(Clone, Copy, Debug, PartialEq, Eq, Structural)]
pub struct IbcEvent {
    pub event_type: u64,
    pub attributes: Digest,
}

/// A copy of `v`.
pub fn copy_vec<T: Copy>(v: &Vec<T>) -> (r: Vec<T>)
    ensures
        r@ == v@,
{
    let mut r: Vec<T> = Vec::new();
    let mut i: usize = 0;
    while i < v.len()
        invariant
            i <= v@.len(),
            r@ == v@.take(i as int),
        decreases v@.len() - i,
    {
        r.push(v[i]);
        i = i + 1;
        assert(r@ =~= v@.take(i as int));
    }
    assert(v@.take(v@.len() as int) =~= v@);
    r
}

/// The summary of an applied transaction.
#[derive(Debug)]
pub struct TxResult {
    pub gas_used: u64,
    /// Keys changed by the wrapper pass.
    pub wrapper_changed_keys: Vec<Key>,
    /// Keys changed by the inner payload.
    pub changed_keys: Vec<Key>,
    pub vps_result: VpsResult,
    pub initialized_accounts: Vec<Address>,
    pub ibc_events: Vec<IbcEvent>,
    /// Ethereum bridge events that a protocol transaction made effective.
    pub eth_bridge_events: Vec<Digest>,
}

impl TxResult {
    pub fn empty() -> (r: TxResult)
        ensures
            r.gas_used == 0,
            r.wrapper_changed_keys@.len() == 0,
            r.changed_keys@.len() == 0,
            r.vps_result.summary() == empty_summary(),
            r.initialized_accounts@.len() == 0,
            r.ibc_events@.len() == 0,
            r.eth_bridge_events@.len() == 0,
    {
        TxResult {
            gas_used: 0,
            wrapper_changed_keys: Vec::new(),
            changed_keys: Vec::new(),
            vps_result: VpsResult::empty(),
            initialized_accounts: Vec::new(),
            ibc_events: Vec::new(),
            eth_bridge_events: Vec::new(),
        }
    }

    /// Whether every validity predicate accepted.
    pub fn is_accepted(&self) -> (r: bool)
        ensures
            r == (self.vps_result.rejected_vps@.len() == 0),
    {
        self.vps_result.is_accepted()
    }
}

/// The addresses that writes to `keys` trigger, in order.
pub open spec fn keys_addresses(keys: Seq<Key>) -> Seq<Address>
    decreases keys.len(),
{
    if keys.len() == 0 {
        Seq::empty()
    } else {
        keys_addresses(keys.drop_last()) + key_addresses(keys.last())
    }
}

/// Whether `s` is strictly ascending in the canonical address order.
pub open spec fn ascending(s: Seq<Address>) -> bool {
    forall|i: int, j: int| 0 <= i < j < s.len() ==> address_lt(#[trigger] s[i], #[trigger] s[j])
}

/// The verifiers of a transaction: the addresses it named and the owners
/// of the keys it wrote, each once, in the canonical address order.
pub open spec fn verifiers_for(tx_verifiers: Seq<Address>, entries: Seq<(Key, Amount)>) -> Seq<Address> {
    let all = (tx_verifiers + keys_addresses(entry_keys(entries))).to_set();
    choose|s: Seq<Address>| ascending(s) && s.to_set() == all
}

/// An ascending list holds no address twice.
pub proof fn lemma_ascending_no_duplicates(s: Seq<Address>)
    requires
        ascending(s),
    ensures
        s.no_duplicates(),
{
    lemma_address_order();
}

/// Two ascending lists of the same addresses are equal.
proof fn lemma_ascending_unique(s1: Seq<Address>, s2: Seq<Address>)
    requires
        ascending(s1),
        ascending(s2),
        s1.to_set() == s2.to_set(),
    ensures
        s1 == s2,
    decreases s1.len(),
{
    lemma_address_order();
    if s1.len() == 0 {
        if s2.len() > 0 {
            assert(s2.to_set().contains(s2[0]));
        }
        assert(s1 =~= s2);
    } else {
        assert(s1.to_set().contains(s1[0]));
        assert(s2.len() > 0);
        let x = s1[0];
        let y = s2[0];
        assert(s2.to_set().contains(x));
        assert(s1.to_set().contains(y));
        let j = choose|j: int| 0 <= j < s2.len() && s2[j] == x;
        let k = choose|k: int| 0 <= k < s1.len() && s1[k] == y;
        if x != y {
            assert(j > 0 && k > 0);
            assert(address_lt(s2[0], s2[j]));
            assert(address_lt(s1[0], s1[k]));
        }
        let t1 = s1.drop_first();
        let t2 = s2.drop_first();
        assert forall|z: Address| t1.to_set().contains(z) implies t2.to_set().contains(z) by {
            let i = choose|i: int| 0 <= i < t1.len() && t1[i] == z;
            assert(s1[i + 1] == z);
            assert(address_lt(s1[0], s1[i + 1]));
            assert(s1.to_set().contains(z));
            let m = choose|m: int| 0 <= m < s2.len() && s2[m] == z;
            assert(m != 0);
            assert(t2[m - 1] == z);
        }
        assert forall|z: Address| t2.to_set().contains(z) implies t1.to_set().contains(z) by {
            let i = choose|i: int| 0 <= i < t2.len() && t2[i] == z;
            assert(s2[i + 1] == z);
            assert(address_lt(s2[0], s2[i + 1]));
            assert(s2.to_set().contains(z));
            let m = choose|m: int| 0 <= m < s1.len() && s1[m] == z;
            assert(m != 0);
            assert(t1[m - 1] == z);
        }
        assert(t1.to_set() =~= t2.to_set());
        assert(ascending(t1)) by {
            assert forall|i: int, j: int| 0 <= i < j < t1.len() implies address_lt(#[trigger] t1[i], #[trigger] t1[j]) by {
                assert(t1[i] == s1[i + 1] && t1[j] == s1[j + 1]);
            }
        }
        assert(ascending(t2)) by {
            assert forall|i: int, j: int| 0 <= i < j < t2.len() implies address_lt(#[trigger] t2[i], #[trigger] t2[j]) by {
                assert(t2[i] == s2[i + 1] && t2[j] == s2[j + 1]);
            }
        }
        lemma_ascending_unique(t1, t2);
        assert(s1 =~= s2) by {
            assert forall|i: int| 0 <= i < s1.len() implies s1[i] == s2[i] by {
                if i > 0 {
                    assert(s1[i] == t1[i - 1]);
                    assert(s2[i] == t2[i - 1]);
                }
            }
        }
    }
}

/// Insert `a` into the ascending list `v`, unless it is there already.
pub fn insert_ascending(v: &mut Vec<Address>, a: Address)
    requires
        ascending(old(v)@),
    ensures
        ascending(final(v)@),
        final(v)@.to_set() == old(v)@.to_set().insert(a),
{
    proof {
        lemma_address_order();
    }
    let mut i: usize = 0;
    while i < v.len() && address_less(&v[i], &a)
        invariant
            i <= v@.len(),
            v@ == old(v)@,
            forall|j: int| 0 <= j < i ==> address_lt(#[trigger] v@[j], a),
        decreases v@.len() - i,
    {
        i = i + 1;
    }
    if i < v.len() && v[i] == a {
        proof {
            assert(v@.to_set() =~= old(v)@.to_set().insert(a)) by {
                assert(v@.to_set().contains(v@[i as int]));
            }
        }
        return;
    }
    let ghost before = v@;
    v.insert(i, a);
    proof {
        assert(v@ =~= before.subrange(0, i as int).push(a) + before.subrange(i as int, before.len() as int));
        assert forall|j: int| i < j < v@.len() implies address_lt(a, #[trigger] v@[j]) by {
            assert(v@[j] == before[j - 1]);
            assert(!address_lt(before[i as int], a));
            assert(before[i as int] != a);
            if j - 1 > i {
                assert(address_lt(before[i as int], before[j - 1]));
            }
        }
        assert forall|x: int, y: int| 0 <= x < y < v@.len() implies address_lt(#[trigger] v@[x], #[trigger] v@[y]) by {
            if y < i {
                assert(v@[x] == before[x] && v@[y] == before[y]);
            } else if y == i {
                assert(v@[x] == before[x]);
            } else if x < i {
                assert(v@[x] == before[x]);
                assert(address_lt(a, v@[y]));
            } else if x == i {
            } else {
                assert(v@[x] == before[x - 1] && v@[y] == before[y - 1]);
            }
        }
        assert forall|z: Address| v@.to_set().contains(z) <==> before.to_set().insert(a).contains(z) by {
            if v@.to_set().contains(z) {
                let m = choose|m: int| 0 <= m < v@.len() && v@[m] == z;
                if m < i {
                    assert(before[m] == z);
                } else if m > i {
                    assert(before[m - 1] == z);
                }
            }
            if before.to_set().contains(z) {
                let m = choose|m: int| 0 <= m < before.len() && before[m] == z;
                if m < i {
                    assert(v@[m] == z);
                } else {
                    assert(v@[m + 1] == z);
                }
            }
            if z == a {
                assert(v@[i as int] == a);
            }
        }
        assert(v@.to_set() =~= before.to_set().insert(a));
    }
}

/// The tx buffer's entries after a run's writes.
pub open spec fn written_entries(tx_entries: Seq<(Key, Amount)>, run: PayloadRun) -> Seq<(Key, Amount)> {
    put_all(tx_entries, run.writes@)
}

/// The outcome of applying a payload over state `base` (all below the tx
/// buffer) and tx buffer `tx_entries`, with meter `meter`: the gas consumed
/// afterwards and the validity predicates' summary.
pub open spec fn wasm_outcome(
    replay: Set<Digest>,
    base: Map<Key, Amount>,
    tx_entries: Seq<(Key, Amount)>,
    meter: TxGasMeter,
    tx_hash: Digest,
    run: PayloadRun,
) -> Result<(nat, VpsSummary), Error> {
    if replay.contains(tx_hash) {
        Err(Error::ReplayAttempt(tx_hash))
    } else if meter.transaction_gas + run.gas > meter.tx_gas_limit {
        Err(Error::GasError)
    } else if run.failure.is_some() {
        Err(tx_runner_error(run.failure.unwrap()))
    } else {
        let written = written_entries(tx_entries, run);
        let g1 = (meter.transaction_gas + run.gas) as nat;
        let vs = verifiers_for(run.verifiers@, written);
        match vps_fold(vs, vs, run.vp_reports@, base.union_prefer_right(entries_map(written)), g1, meter.tx_gas_limit as nat) {
            Err(e) => Err(e),
            Ok(s) => Ok((g1 + s.gas, s)),
        }
    }
}

/// The verifiers of the running transaction and the keys it changed.
pub fn verifiers_and_changed_keys(write_log: &WriteLog, verifiers_from_tx: &Vec<Address>) -> (r: (
    Vec<Address>,
    Vec<Key>,
))
    requires
        write_log.wf(),
    ensures
        r.0@ == verifiers_for(verifiers_from_tx@, write_log.tx.entries@),
        r.0@.no_duplicates(),
        r.1@ == entry_keys(write_log.tx.entries@),
{
    let keys = write_log.get_keys();
    let mut all: Vec<Address> = Vec::new();
    let mut i: usize = 0;
    while i < verifiers_from_tx.len()
        invariant
            i <= verifiers_from_tx@.len(),
            all@ == verifiers_from_tx@.take(i as int),
        decreases verifiers_from_tx@.len() - i,
    {
        all.push(verifiers_from_tx[i]);
        i = i + 1;
        assert(all@ =~= verifiers_from_tx@.take(i as int));
    }
    assert(verifiers_from_tx@.take(verifiers_from_tx@.len() as int) =~= verifiers_from_tx@);
    let mut j: usize = 0;
    while j < keys.len()
        invariant
            j <= keys@.len(),
            all@ == verifiers_from_tx@ + keys_addresses(keys@.take(j as int)),
        decreases keys@.len() - j,
    {
        let mut owners = addresses_of_key(&keys[j]);
        proof {
            assert(keys@.take(j as int + 1).drop_last() =~= keys@.take(j as int));
        }
        all.append(&mut owners);
        j = j + 1;
        assert(all@ =~= verifiers_from_tx@ + keys_addresses(keys@.take(j as int)));
    }
    assert(keys@.take(keys@.len() as int) =~= keys@);
    let mut verifiers: Vec<Address> = Vec::new();
    let mut k: usize = 0;
    assert(verifiers@.to_set() =~= all@.take(0).to_set());
    while k < all.len()
        invariant
            k <= all@.len(),
            ascending(verifiers@),
            verifiers@.to_set() == all@.take(k as int).to_set(),
        decreases all@.len() - k,
    {
        let a = all[k];
        insert_ascending(&mut verifiers, a);
        proof {
            assert(all@.take(k as int + 1) =~= all@.take(k as int).push(a));
            assert(all@.take(k as int + 1).to_set() =~= all@.take(k as int).to_set().insert(a)) by {
                let t = all@.take(k as int);
                assert forall|z: Address| t.push(a).to_set().contains(z) <==> t.to_set().insert(a).contains(z) by {
                    if t.push(a).to_set().contains(z) {
                        let m = choose|m: int| 0 <= m < t.push(a).len() && t.push(a)[m] == z;
                        if m < t.len() {
                            assert(t[m] == z);
                        }
                    }
                    if t.to_set().contains(z) {
                        let m = choose|m: int| 0 <= m < t.len() && t[m] == z;
                        assert(t.push(a)[m] == z);
                    }
                    if z == a {
                        assert(t.push(a)[t.len() as int] == a);
                    }
                }
            }
        }
        k = k + 1;
    }
    proof {
        assert(all@.take(all@.len() as int) =~= all@);
        let target = all@.to_set();
        assert(ascending(verifiers@) && verifiers@.to_set() == target);
        let c = choose|c: Seq<Address>| ascending(c) && c.to_set() == target;
        lemma_ascending_unique(verifiers@, c);
        lemma_ascending_no_duplicates(verifiers@);
    }
    (verifiers, keys)
}

/// Run the payload: charge its gas, then apply its writes to the tx buffer.
/// Returns the verifiers the payload asked for.
fn execute_tx(run: &PayloadRun, state: &mut State, tx_gas_meter: &mut TxGasMeter) -> (r: Result<Vec<Address>, Error>)
    requires
        old(state).wf(),
        old(tx_gas_meter).wf(),
    ensures
        crate::fees::same_but_tx(*old(state), *final(state)),
        final(tx_gas_meter).wf(),
        final(tx_gas_meter).tx_gas_limit == old(tx_gas_meter).tx_gas_limit,
        old(tx_gas_meter).transaction_gas + run.gas > old(tx_gas_meter).tx_gas_limit ==> r == Err::<Vec<Address>, Error>(Error::GasError) && *final(tx_gas_meter) == *old(tx_gas_meter),
        old(tx_gas_meter).transaction_gas + run.gas <= old(tx_gas_meter).tx_gas_limit ==> {
            &&& final(tx_gas_meter).transaction_gas == old(tx_gas_meter).transaction_gas + run.gas
            &&& match run.failure {
                Some(e) => r == Err::<Vec<Address>, Error>(tx_runner_error(e)),
                None => r.is_ok() && r.unwrap()@ == run.verifiers@ && final(state).write_log.tx.entries@
                    == written_entries(old(state).write_log.tx.entries@, *run),
            }
        },
{
    tx_gas_meter.consume(run.gas)?;
    if let Some(e) = run.failure {
        return Err(map_tx_runner_error(e));
    }
    state.write_log.tx.put_entries(&run.writes);
    let mut verifiers: Vec<Address> = Vec::new();
    let mut i: usize = 0;
    while i < run.verifiers.len()
        invariant
            i <= run.verifiers@.len(),
            verifiers@ == run.verifiers@.take(i as int),
        decreases run.verifiers@.len() - i,
    {
        verifiers.push(run.verifiers[i]);
        i = i + 1;
        assert(verifiers@ =~= run.verifiers@.take(i as int));
    }
    assert(run.verifiers@.take(run.verifiers@.len() as int) =~= run.verifiers@);
    Ok(verifiers)
}

/// Run the validity predicates of the running transaction's verifiers and
/// charge their gas to the transaction.
fn check_vps(
    verifiers_from_tx: &Vec<Address>,
    reports: &Vec<VpReport>,
    state: &State,
    tx_gas_meter: &mut TxGasMeter,
) -> (r: Result<VpsResult, Error>)
    requires
        state.wf(),
        old(tx_gas_meter).wf(),
    ensures
        final(tx_gas_meter).wf(),
        final(tx_gas_meter).tx_gas_limit == old(tx_gas_meter).tx_gas_limit,
        r.is_err() ==> *final(tx_gas_meter) == *old(tx_gas_meter),
        ({
            let vs = verifiers_for(verifiers_from_tx@, state.write_log.tx.entries@);
            match vps_fold(
                vs,
                vs,
                reports@,
                state.view_map(),
                old(tx_gas_meter).transaction_gas as nat,
                old(tx_gas_meter).tx_gas_limit as nat,
            ) {
                Err(e) => r == Err::<VpsResult, Error>(e),
                Ok(s) => r.is_ok() && r.unwrap().summary() == s && final(tx_gas_meter).transaction_gas
                    == old(tx_gas_meter).transaction_gas + s.gas,
            }
        }),
{
    let (verifiers, _keys_changed) = verifiers_and_changed_keys(&state.write_log, verifiers_from_tx);
    let vps_result = execute_vps(&verifiers, reports, state, tx_gas_meter)?;
    proof {
        lemma_fold_gas_bound(
            verifiers@,
            verifiers@,
            reports@,
            state.view_map(),
            tx_gas_meter.transaction_gas as nat,
            tx_gas_meter.tx_gas_limit as nat,
        );
    }
    tx_gas_meter.add_vps_gas(vps_result.gas_used)?;
    Ok(vps_result)
}

/// Apply an inner payload whose hash is `tx_hash`. Gas is metered and the
/// validity predicates of its verifiers run. On failure the tx buffer is
/// dropped; the precommit and block buffers and storage are left as they were.
pub fn apply_wasm_tx(tx_hash: Digest, run: &PayloadRun, tx_gas_meter: &mut TxGasMeter, state: &mut State) -> (r:
    Result<TxResult, Error>)
    requires
        old(state).wf(),
        old(tx_gas_meter).wf(),
    ensures
        crate::fees::same_but_tx(*old(state), *final(state)),
        final(tx_gas_meter).wf(),
        final(tx_gas_meter).tx_gas_limit == old(tx_gas_meter).tx_gas_limit,
        r.is_err() ==> final(tx_gas_meter).transaction_gas == if old(state).write_log.replay@.contains(tx_hash)
            || old(tx_gas_meter).transaction_gas + run.gas > old(tx_gas_meter).tx_gas_limit {
            old(tx_gas_meter).transaction_gas as int
        } else {
            old(tx_gas_meter).transaction_gas + run.gas
        },
        match wasm_outcome(
            old(state).write_log.replay@.to_set(),
            old(state).base_view(),
            old(state).write_log.tx.entries@,
            *old(tx_gas_meter),
            tx_hash,
            *run,
        ) {
            Err(e) => r == Err::<TxResult, Error>(e) && final(state).write_log.tx@.is_empty(),
            Ok((g, s)) => {
                &&& r.is_ok()
                &&& r.unwrap().gas_used == g
                &&& final(tx_gas_meter).transaction_gas == g
                &&& r.unwrap().vps_result.summary() == s
                &&& final(state).write_log.tx.entries@ == written_entries(old(state).write_log.tx.entries@, *run)
                &&& r.unwrap().changed_keys@ == entry_keys(final(state).write_log.tx.entries@)
                &&& r.unwrap().wrapper_changed_keys@.len() == 0
                &&& r.unwrap().initialized_accounts@ == run.initialized_accounts@
                &&& r.unwrap().ibc_events@ == run.ibc_events@
                &&& r.unwrap().eth_bridge_events@.len() == 0
            },
        },
{
    if state.write_log.has_replay_protection_entry(tx_hash) {
        // the same inner transaction was already applied in this block
        state.write_log.drop_tx_keep_precommit();
        return Err(Error::ReplayAttempt(tx_hash));
    }
    let verifiers = match execute_tx(run, state, tx_gas_meter) {
        Ok(v) => v,
        Err(e) => {
            state.write_log.drop_tx_keep_precommit();
            return Err(e);
        },
    };
    assert(state.view_map() == old(state).base_view().union_prefer_right(entries_map(state.write_log.tx.entries@)));
    let vps_result = match check_vps(&verifiers, &run.vp_reports, state, tx_gas_meter) {
        Ok(v) => v,
        Err(e) => {
            state.write_log.drop_tx_keep_precommit();
            return Err(e);
        },
    };
    let gas_used = tx_gas_meter.get_tx_consumed_gas();
    let changed_keys = state.write_log.get_keys();
    Ok(
        TxResult {
            gas_used,
            wrapper_changed_keys: Vec::new(),
            changed_keys,
            vps_result,
            initialized_accounts: copy_vec(&run.initialized_accounts),
            ibc_events: copy_vec(&run.ibc_events),
            eth_bridge_events: Vec::new(),
        },
    )
}

} // verus!
