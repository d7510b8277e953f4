//! Evaluation of validity predicates over a transaction's verifier set.
//!
//! Verifiers are evaluated once each, in the order of the verifier list.
//! A failing predicate is recorded and evaluation goes on; running out of
//! gas is the one failure that ends the run.
use vstd::prelude::*;
use crate::address::{Address, Amount, InternalAddress, Key};
use crate::error::{map_vp_runner_error, vp_runner_error, Error, RunnerError};
use crate::gas::TxGasMeter;
use crate::state::State;

verus! {

/// What a validity predicate's run reported.
#[derive(Clone, Copy, Debug, PartialEq, Eq, Structural)]
pub enum VpOutcome {
    Accepted,
    Rejected,
    Failed(RunnerError),
}

/// The report of the runner (sandboxed or built-in) for one address: the
/// gas it consumed and its outcome.
#[derive(Clone, Copy, Debug, PartialEq, Eq, Structural)]
pub struct VpReport {
    pub addr: Address,
    pub gas: u64,
    pub outcome: VpOutcome,
}

/// The verdict on one verifier: gas charged and the error, if it failed.
#[derive(Clone, Copy, Debug, PartialEq, Eq, Structural)]
pub struct VpCheck {
    pub gas: u64,
    pub error: Option<Error>,
}

/// The first report for `a`.
pub open spec fn report_of(reports: Seq<VpReport>, a: Address) -> Option<VpReport>
    decreases reports.len(),
{
    if reports.len() == 0 {
        None
    } else if reports[0].addr == a {
        Some(reports[0])
    } else {
        report_of(reports.subrange(1, reports.len() as int), a)
    }
}

/// Whether `a` is one of the sentinels that no transaction may write to.
pub open spec fn is_forbidden_sentinel(a: Address) -> bool {
    a == Address::Internal(InternalAddress::PosSlashPool) || a == Address::Internal(
        InternalAddress::TempStorage,
    )
}

/// The verdict on verifier `a`, given the whole verifier list, the
/// runner's reports and the state.
pub open spec fn vp_check(
    a: Address,
    verifiers: Seq<Address>,
    reports: Seq<VpReport>,
    view: Map<Key, Amount>,
) -> VpCheck {
    let rep = report_of(reports, a);
    let gas: u64 = match rep {
        Some(r) => r.gas,
        None => 0,
    };
    match a {
        Address::Internal(k) => match k {
            InternalAddress::PosSlashPool | InternalAddress::TempStorage => VpCheck {
                gas: 0,
                error: Some(Error::AccessForbidden(k)),
            },
            InternalAddress::IbcToken(_) | InternalAddress::Erc20(_) => VpCheck {
                gas: 0,
                error: if verifiers.contains(Address::Internal(InternalAddress::Multitoken)) {
                    None
                } else {
                    Some(Error::AccessForbidden(k))
                },
            },
            _ => VpCheck {
                gas,
                error: match rep {
                    None => Some(Error::NativeVpError(k)),
                    Some(r) => match r.outcome {
                        VpOutcome::Accepted => None,
                        VpOutcome::Rejected => Some(Error::NativeVpError(k)),
                        VpOutcome::Failed(RunnerError::Gas) => Some(Error::GasError),
                        VpOutcome::Failed(_) => Some(Error::NativeVpError(k)),
                    },
                },
            },
        },
        _ => VpCheck {
            gas,
            error: if !view.contains_key(Key::Vp(a)) {
                Some(Error::MissingAddress(a))
            } else {
                match rep {
                    None => Some(Error::VpRunnerError),
                    Some(r) => match r.outcome {
                        VpOutcome::Accepted => None,
                        VpOutcome::Rejected => Some(Error::VpRunnerError),
                        VpOutcome::Failed(e) => Some(vp_runner_error(e)),
                    },
                }
            },
        },
    }
}

/// The mathematical content of a `VpsResult`.
pub struct VpsSummary {
    pub accepted: Seq<Address>,
    pub rejected: Seq<Address>,
    pub errors: Seq<(Address, Error)>,
    pub invalid_signature: bool,
    pub gas: nat,
}

pub open spec fn empty_summary() -> VpsSummary {
    VpsSummary {
        accepted: Seq::empty(),
        rejected: Seq::empty(),
        errors: Seq::empty(),
        invalid_signature: false,
        gas: 0,
    }
}

/// The result of evaluating the single verifier `a` with verdict `c`.
pub open spec fn single_summary(a: Address, c: VpCheck) -> VpsSummary {
    match c.error {
        None => VpsSummary {
            accepted: seq![a],
            rejected: Seq::empty(),
            errors: Seq::empty(),
            invalid_signature: false,
            gas: c.gas as nat,
        },
        Some(e) => VpsSummary {
            accepted: Seq::empty(),
            rejected: seq![a],
            errors: seq![(a, e)],
            invalid_signature: e == Error::InvalidSectionSignature,
            gas: c.gas as nat,
        },
    }
}

/// Aggregation of two partial results under the gas ceiling: `initial` is
/// the gas the transaction consumed before its predicates ran.
pub open spec fn merge_summaries(a: VpsSummary, b: VpsSummary, initial: nat, limit: nat) -> Result<
    VpsSummary,
    Error,
> {
    if initial + a.gas + b.gas > limit {
        Err(Error::GasError)
    } else {
        Ok(
            VpsSummary {
                accepted: a.accepted + b.accepted,
                rejected: a.rejected + b.rejected,
                errors: a.errors + b.errors,
                invalid_signature: a.invalid_signature || b.invalid_signature,
                gas: a.gas + b.gas,
            },
        )
    }
}

/// The outcome of running one verifier on its own gas meter.
pub open spec fn run_one(
    a: Address,
    verifiers: Seq<Address>,
    reports: Seq<VpReport>,
    view: Map<Key, Amount>,
    initial: nat,
    limit: nat,
) -> Result<VpsSummary, Error> {
    let c = vp_check(a, verifiers, reports, view);
    if c.error == Some(Error::GasError) || initial + c.gas > limit {
        Err(Error::GasError)
    } else {
        Ok(single_summary(a, c))
    }
}

/// Evaluation of the verifiers `vs` in order, stopping at the first gas failure.
pub open spec fn vps_fold(
    vs: Seq<Address>,
    verifiers: Seq<Address>,
    reports: Seq<VpReport>,
    view: Map<Key, Amount>,
    initial: nat,
    limit: nat,
) -> Result<VpsSummary, Error>
    decreases vs.len(),
{
    if vs.len() == 0 {
        Ok(empty_summary())
    } else {
        match vps_fold(vs.drop_last(), verifiers, reports, view, initial, limit) {
            Err(e) => Err(e),
            Ok(acc) => match run_one(vs.last(), verifiers, reports, view, initial, limit) {
                Err(e) => Err(e),
                Ok(one) => merge_summaries(acc, one, initial, limit),
            },
        }
    }
}

/// Once evaluation of a prefix fails, evaluation of the whole list fails alike.
proof fn lemma_fold_err_extends(
    vs: Seq<Address>,
    j: int,
    verifiers: Seq<Address>,
    reports: Seq<VpReport>,
    view: Map<Key, Amount>,
    initial: nat,
    limit: nat,
)
    requires
        0 <= j <= vs.len(),
        vps_fold(vs.take(j), verifiers, reports, view, initial, limit).is_err(),
    ensures
        vps_fold(vs, verifiers, reports, view, initial, limit) == vps_fold(
            vs.take(j),
            verifiers,
            reports,
            view,
            initial,
            limit,
        ),
    decreases vs.len(),
{
    if j == vs.len() {
        assert(vs.take(j) =~= vs);
    } else {
        assert(vs.drop_last().take(j) =~= vs.take(j));
        lemma_fold_err_extends(vs.drop_last(), j, verifiers, reports, view, initial, limit);
    }
}

/// Accepted and rejected verifiers, the errors of those rejected, the
/// invalid-section-signature flag and the gas that the predicates used.
#[derive(Debug)]
pub struct VpsResult {
    pub accepted_vps: Vec<Address>,
    pub rejected_vps: Vec<Address>,
    pub errors: Vec<(Address, Error)>,
    pub invalid_signature: bool,
    pub gas_used: u64,
}

impl VpsResult {
    pub open spec fn summary(&self) -> VpsSummary {
        VpsSummary {
            accepted: self.accepted_vps@,
            rejected: self.rejected_vps@,
            errors: self.errors@,
            invalid_signature: self.invalid_signature,
            gas: self.gas_used as nat,
        }
    }

    pub fn empty() -> (r: VpsResult)
        ensures
            r.summary() == empty_summary(),
    {
        VpsResult {
            accepted_vps: Vec::new(),
            rejected_vps: Vec::new(),
            errors: Vec::new(),
            invalid_signature: false,
            gas_used: 0,
        }
    }

    /// Whether every verifier accepted.
    pub fn is_accepted(&self) -> (r: bool)
        ensures
            r == (self.rejected_vps@.len() == 0),
    {
        self.rejected_vps.len() == 0
    }
}

pub open spec fn summary_of(r: Result<VpsResult, Error>) -> Result<VpsSummary, Error> {
    match r {
        Ok(v) => Ok(v.summary()),
        Err(e) => Err(e),
    }
}

/// The first report for `a` in `reports`.
pub fn find_report(reports: &Vec<VpReport>, a: &Address) -> (r: Option<VpReport>)
    ensures
        r == report_of(reports@, *a),
{
    let mut i: usize = 0;
    assert(reports@.subrange(0, reports@.len() as int) =~= reports@);
    while i < reports.len()
        invariant
            i <= reports@.len(),
            report_of(reports@, *a) == report_of(reports@.subrange(i as int, reports@.len() as int), *a),
        decreases reports@.len() - i,
    {
        let ghost rest = reports@.subrange(i as int, reports@.len() as int);
        assert(rest.subrange(1, rest.len() as int) =~= reports@.subrange(i as int + 1, reports@.len() as int));
        if reports[i].addr == *a {
            return Some(reports[i]);
        }
        i = i + 1;
    }
    None
}

/// The verdict on verifier `a`.
pub fn check_vp(a: &Address, verifiers: &Vec<Address>, reports: &Vec<VpReport>, state: &State) -> (r: VpCheck)
    requires
        state.wf(),
    ensures
        r == vp_check(*a, verifiers@, reports@, state.view_map()),
{
    let rep = find_report(reports, a);
    let gas: u64 = match rep {
        Some(r) => r.gas,
        None => 0,
    };
    match a {
        Address::Internal(k) => match k {
            InternalAddress::PosSlashPool | InternalAddress::TempStorage => VpCheck {
                gas: 0,
                error: Some(Error::AccessForbidden(*k)),
            },
            InternalAddress::IbcToken(_) | InternalAddress::Erc20(_) => {
                // such an address is only ever written together with a multitoken key
                let multitoken = Address::Internal(InternalAddress::Multitoken);
                VpCheck {
                    gas: 0,
                    error: if crate::storage::addresses_contain(verifiers, &multitoken) {
                        None
                    } else {
                        Some(Error::AccessForbidden(*k))
                    },
                }
            },
            _ => VpCheck {
                gas,
                error: match rep {
                    None => Some(Error::NativeVpError(*k)),
                    Some(r) => match r.outcome {
                        VpOutcome::Accepted => None,
                        VpOutcome::Rejected => Some(Error::NativeVpError(*k)),
                        VpOutcome::Failed(RunnerError::Gas) => Some(Error::GasError),
                        VpOutcome::Failed(_) => Some(Error::NativeVpError(*k)),
                    },
                },
            },
        },
        _ => {
            let bound = state.read(&Key::Vp(*a)).is_some();
            VpCheck {
                gas,
                error: if !bound {
                    Some(Error::MissingAddress(*a))
                } else {
                    match rep {
                        None => Some(Error::VpRunnerError),
                        Some(r) => match r.outcome {
                            VpOutcome::Accepted => None,
                            VpOutcome::Rejected => Some(Error::VpRunnerError),
                            VpOutcome::Failed(e) => Some(map_vp_runner_error(e)),
                        },
                    }
                },
            }
        },
    }
}

/// A validity predicate's gas meter: it starts from what the transaction
/// has consumed and shares the transaction's ceiling.
#[derive(Clone, Copy, Debug, PartialEq, Eq, Structural)]
pub struct VpGasMeter {
    pub tx_gas_limit: u64,
    pub initial_gas: u64,
    pub current_gas: u64,
}

impl VpGasMeter {
    pub fn new_from_tx_meter(tx_meter: &TxGasMeter) -> (r: VpGasMeter)
        ensures
            r.tx_gas_limit == tx_meter.tx_gas_limit,
            r.initial_gas == tx_meter.transaction_gas,
            r.current_gas == 0,
    {
        VpGasMeter {
            tx_gas_limit: tx_meter.tx_gas_limit,
            initial_gas: tx_meter.transaction_gas,
            current_gas: 0,
        }
    }

    /// Charge `gas`; fails where the transaction's total would exceed the ceiling.
    pub fn consume(&mut self, gas: u64) -> (r: Result<(), Error>)
        ensures
            final(self).tx_gas_limit == old(self).tx_gas_limit,
            final(self).initial_gas == old(self).initial_gas,
            r.is_ok() == (old(self).initial_gas + old(self).current_gas + gas <= old(self).tx_gas_limit),
            r.is_ok() ==> final(self).current_gas == old(self).current_gas + gas,
            r.is_err() ==> r == Err::<(), Error>(Error::GasError),
    {
        if (self.initial_gas as u128) + (self.current_gas as u128) + (gas as u128) > self.tx_gas_limit as u128 {
            Err(Error::GasError)
        } else {
            self.current_gas = self.current_gas + gas;
            Ok(())
        }
    }
}

/// Run one verifier on a fresh gas meter derived from the transaction's.
pub fn run_vp(
    a: &Address,
    verifiers: &Vec<Address>,
    reports: &Vec<VpReport>,
    state: &State,
    tx_gas_meter: &TxGasMeter,
) -> (r: Result<VpsResult, Error>)
    requires
        state.wf(),
    ensures
        summary_of(r) == run_one(
            *a,
            verifiers@,
            reports@,
            state.view_map(),
            tx_gas_meter.transaction_gas as nat,
            tx_gas_meter.tx_gas_limit as nat,
        ),
{
    let mut meter = VpGasMeter::new_from_tx_meter(tx_gas_meter);
    let c = check_vp(a, verifiers, reports, state);
    meter.consume(c.gas)?;
    let mut result = VpsResult::empty();
    match c.error {
        None => {
            result.accepted_vps.push(*a);
        },
        Some(e) => {
            if e == Error::GasError {
                // running out of gas ends the whole evaluation
                return Err(Error::GasError);
            }
            result.invalid_signature = e.invalid_section_signature_flag();
            result.rejected_vps.push(*a);
            result.errors.push((*a, e));
        },
    }
    result.gas_used = meter.current_gas;
    proof {
        assert(result.accepted_vps@ =~= single_summary(*a, c).accepted);
        assert(result.rejected_vps@ =~= single_summary(*a, c).rejected);
        assert(result.errors@ =~= single_summary(*a, c).errors);
    }
    Ok(result)
}

/// Merge the results of two runs of predicates, re-checking the ceiling.
pub fn merge_vp_results(a: VpsResult, b: VpsResult, tx_gas_meter: &TxGasMeter) -> (r: Result<VpsResult, Error>)
    ensures
        summary_of(r) == merge_summaries(
            a.summary(),
            b.summary(),
            tx_gas_meter.transaction_gas as nat,
            tx_gas_meter.tx_gas_limit as nat,
        ),
{
    let VpsResult { mut accepted_vps, mut rejected_vps, mut errors, invalid_signature, gas_used } = a;
    let mut b = b;
    if (tx_gas_meter.transaction_gas as u128) + (gas_used as u128) + (b.gas_used as u128)
        > tx_gas_meter.tx_gas_limit as u128 {
        return Err(Error::GasError);
    }
    accepted_vps.append(&mut b.accepted_vps);
    rejected_vps.append(&mut b.rejected_vps);
    errors.append(&mut b.errors);
    Ok(
        VpsResult {
            accepted_vps,
            rejected_vps,
            errors,
            invalid_signature: invalid_signature || b.invalid_signature,
            gas_used: gas_used + b.gas_used,
        },
    )
}

/// Evaluate the validity predicate of every verifier.
pub fn execute_vps(
    verifiers: &Vec<Address>,
    reports: &Vec<VpReport>,
    state: &State,
    tx_gas_meter: &TxGasMeter,
) -> (r: Result<VpsResult, Error>)
    requires
        state.wf(),
        verifiers@.no_duplicates(),
    ensures
        summary_of(r) == vps_fold(
            verifiers@,
            verifiers@,
            reports@,
            state.view_map(),
            tx_gas_meter.transaction_gas as nat,
            tx_gas_meter.tx_gas_limit as nat,
        ),
{
    let ghost view = state.view_map();
    let ghost initial = tx_gas_meter.transaction_gas as nat;
    let ghost limit = tx_gas_meter.tx_gas_limit as nat;
    let mut acc = VpsResult::empty();
    let mut i: usize = 0;
    while i < verifiers.len()
        invariant
            i <= verifiers@.len(),
            state.wf(),
            view == state.view_map(),
            initial == tx_gas_meter.transaction_gas as nat,
            limit == tx_gas_meter.tx_gas_limit as nat,
            vps_fold(verifiers@.take(i as int), verifiers@, reports@, view, initial, limit) == Ok::<
                VpsSummary,
                Error,
            >(acc.summary()),
        decreases verifiers@.len() - i,
    {
        let a = verifiers[i];
        proof {
            assert(verifiers@.take(i as int + 1).drop_last() =~= verifiers@.take(i as int));
        }
        let one = match run_vp(&a, verifiers, reports, state, tx_gas_meter) {
            Ok(one) => one,
            Err(e) => {
                proof {
                    lemma_fold_err_extends(verifiers@, i as int + 1, verifiers@, reports@, view, initial, limit);
                }
                return Err(e);
            },
        };
        acc = match merge_vp_results(acc, one, tx_gas_meter) {
            Ok(m) => m,
            Err(e) => {
                proof {
                    lemma_fold_err_extends(verifiers@, i as int + 1, verifiers@, reports@, view, initial, limit);
                }
                return Err(e);
            },
        };
        i = i + 1;
    }
    assert(verifiers@.take(verifiers@.len() as int) =~= verifiers@);
    Ok(acc)
}

proof fn lemma_contains_concat<T>(x: Seq<T>, y: Seq<T>)
    ensures
        forall|a: T| (x + y).contains(a) <==> (x.contains(a) || y.contains(a)),
{
    assert forall|a: T| (x + y).contains(a) <==> (x.contains(a) || y.contains(a)) by {
        if x.contains(a) {
            let j = choose|j: int| 0 <= j < x.len() && x[j] == a;
            assert((x + y)[j] == a);
        }
        if y.contains(a) {
            let j = choose|j: int| 0 <= j < y.len() && y[j] == a;
            assert((x + y)[x.len() + j] == a);
        }
        if (x + y).contains(a) {
            let j = choose|j: int| 0 <= j < (x + y).len() && (x + y)[j] == a;
            if j < x.len() {
                assert(x[j] == a);
            } else {
                assert(y[j - x.len()] == a);
            }
        }
    }
}

proof fn lemma_contains_drop_last<T>(s: Seq<T>)
    requires
        s.len() > 0,
    ensures
        forall|a: T| s.contains(a) <==> (s.drop_last().contains(a) || a == s.last()),
{
    assert(s =~= s.drop_last().push(s.last()));
    assert forall|a: T| s.contains(a) <==> (s.drop_last().contains(a) || a == s.last()) by {
        if s.drop_last().contains(a) {
            let j = choose|j: int| 0 <= j < s.drop_last().len() && s.drop_last()[j] == a;
            assert(s[j] == a);
        }
        if a == s.last() {
            assert(s[s.len() - 1] == a);
        }
        if s.contains(a) {
            let j = choose|j: int| 0 <= j < s.len() && s[j] == a;
            if j < s.len() - 1 {
                assert(s.drop_last()[j] == a);
            }
        }
    }
}

proof fn lemma_fold_err_is_gas(
    vs: Seq<Address>,
    verifiers: Seq<Address>,
    reports: Seq<VpReport>,
    view: Map<Key, Amount>,
    initial: nat,
    limit: nat,
)
    ensures
        vps_fold(vs, verifiers, reports, view, initial, limit).is_err() ==> vps_fold(
            vs,
            verifiers,
            reports,
            view,
            initial,
            limit,
        ) == Err::<VpsSummary, Error>(Error::GasError),
    decreases vs.len(),
{
    if vs.len() > 0 {
        lemma_fold_err_is_gas(vs.drop_last(), verifiers, reports, view, initial, limit);
    }
}

/// What a successful evaluation records: each verifier is accepted exactly
/// when its predicate passed, and rejected, with its error, exactly when it
/// failed.
proof fn lemma_fold_records(
    vs: Seq<Address>,
    verifiers: Seq<Address>,
    reports: Seq<VpReport>,
    view: Map<Key, Amount>,
    initial: nat,
    limit: nat,
)
    ensures
        vps_fold(vs, verifiers, reports, view, initial, limit) matches Ok(s) ==> {
            &&& forall|a: Address| #[trigger]
                s.accepted.contains(a) <==> (vs.contains(a) && vp_check(
                    a,
                    verifiers,
                    reports,
                    view,
                ).error.is_none())
            &&& forall|a: Address| #[trigger]
                s.rejected.contains(a) <==> (vs.contains(a) && vp_check(
                    a,
                    verifiers,
                    reports,
                    view,
                ).error.is_some())
            &&& forall|a: Address|
                #![trigger vs.contains(a)]
                vs.contains(a) && vp_check(a, verifiers, reports, view).error.is_some()
                    ==> s.errors.contains((a, vp_check(a, verifiers, reports, view).error.unwrap()))
        },
    decreases vs.len(),
{
    if vs.len() == 0 {
        assert forall|a: Address| !vs.contains(a) by {}
        assert forall|a: Address| !empty_summary().accepted.contains(a) by {}
        assert forall|a: Address| !empty_summary().rejected.contains(a) by {}
    } else {
        let prev = vs.drop_last();
        lemma_fold_records(prev, verifiers, reports, view, initial, limit);
        lemma_contains_drop_last(vs);
        if let Ok(acc) = vps_fold(prev, verifiers, reports, view, initial, limit) {
            let last = vs.last();
            if let Ok(one) = run_one(last, verifiers, reports, view, initial, limit) {
                if let Ok(s) = merge_summaries(acc, one, initial, limit) {
                    lemma_contains_concat(acc.accepted, one.accepted);
                    lemma_contains_concat(acc.rejected, one.rejected);
                    lemma_contains_concat(acc.errors, one.errors);
                    let c = vp_check(last, verifiers, reports, view);
                    assert(one == single_summary(last, c));
                    assert forall|a: Address| one.accepted.contains(a) <==> (a == last && c.error.is_none()) by {
                        if one.accepted.contains(a) {
                            assert(one.accepted[0] == a);
                        }
                        if a == last && c.error.is_none() {
                            assert(one.accepted[0] == a);
                        }
                    }
                    assert forall|a: Address| one.rejected.contains(a) <==> (a == last && c.error.is_some()) by {
                        if one.rejected.contains(a) {
                            assert(one.rejected[0] == a);
                        }
                        if a == last && c.error.is_some() {
                            assert(one.rejected[0] == a);
                        }
                    }
                    if c.error.is_some() {
                        assert(one.errors[0] == (last, c.error.unwrap()));
                        assert(one.errors.contains((last, c.error.unwrap())));
                    }
                    assert forall|a: Address|
                        s.accepted.contains(a) <==> (vs.contains(a) && vp_check(
                            a,
                            verifiers,
                            reports,
                            view,
                        ).error.is_none()) by {
                        assert(s.accepted.contains(a) <==> (acc.accepted.contains(a) || one.accepted.contains(a)));
                        assert(acc.accepted.contains(a) <==> (prev.contains(a) && vp_check(a, verifiers, reports, view).error.is_none()));
                        assert(vs.contains(a) <==> (prev.contains(a) || a == last));
                    }
                    assert forall|a: Address|
                        s.rejected.contains(a) <==> (vs.contains(a) && vp_check(
                            a,
                            verifiers,
                            reports,
                            view,
                        ).error.is_some()) by {
                        assert(s.rejected.contains(a) <==> (acc.rejected.contains(a) || one.rejected.contains(a)));
                        assert(acc.rejected.contains(a) <==> (prev.contains(a) && vp_check(a, verifiers, reports, view).error.is_some()));
                        assert(vs.contains(a) <==> (prev.contains(a) || a == last));
                    }
                    assert forall|a: Address|
                        #![trigger vs.contains(a)]
                        vs.contains(a) && vp_check(a, verifiers, reports, view).error.is_some()
                            implies s.errors.contains(
                            (a, vp_check(a, verifiers, reports, view).error.unwrap()),
                        ) by {
                        if a != last {
                            assert(prev.contains(a));
                        }
                    }
                }
            }
        }
    }
}

/// A successful evaluation stays within the gas ceiling.
pub proof fn lemma_fold_gas_bound(
    vs: Seq<Address>,
    verifiers: Seq<Address>,
    reports: Seq<VpReport>,
    view: Map<Key, Amount>,
    initial: nat,
    limit: nat,
)
    requires
        initial <= limit,
    ensures
        vps_fold(vs, verifiers, reports, view, initial, limit) matches Ok(s) ==> initial + s.gas <= limit,
    decreases vs.len(),
{
    if vs.len() > 0 {
        lemma_fold_gas_bound(vs.drop_last(), verifiers, reports, view, initial, limit);
    }
}

/// Running out of gas ends evaluation: if the predicate of any verifier
/// runs out of gas, the whole evaluation fails with a gas error and yields
/// no result.
pub proof fn lemma_gas_short_circuit(
    verifiers: Seq<Address>,
    reports: Seq<VpReport>,
    view: Map<Key, Amount>,
    initial: nat,
    limit: nat,
    i: int,
)
    requires
        0 <= i < verifiers.len(),
        vp_check(verifiers[i], verifiers, reports, view).error == Some(Error::GasError),
    ensures
        vps_fold(verifiers, verifiers, reports, view, initial, limit) == Err::<VpsSummary, Error>(
            Error::GasError,
        ),
{
    let t = verifiers.take(i + 1);
    assert(t.drop_last() =~= verifiers.take(i));
    assert(t.last() == verifiers[i]);
    lemma_fold_err_is_gas(t.drop_last(), verifiers, reports, view, initial, limit);
    lemma_fold_err_extends(verifiers, i + 1, verifiers, reports, view, initial, limit);
}

/// A predicate that fails for any reason but gas does not stop the others:
/// evaluation either fails with a gas error, or every verifier ends up in
/// exactly one of the accepted and rejected lists.
pub proof fn lemma_vps_complete(
    verifiers: Seq<Address>,
    reports: Seq<VpReport>,
    view: Map<Key, Amount>,
    initial: nat,
    limit: nat,
)
    ensures
        match vps_fold(verifiers, verifiers, reports, view, initial, limit) {
            Ok(s) => forall|a: Address|
                #![trigger verifiers.contains(a)]
                verifiers.contains(a) ==> (s.accepted.contains(a) != s.rejected.contains(a)),
            Err(e) => e == Error::GasError,
        },
{
    lemma_fold_records(verifiers, verifiers, reports, view, initial, limit);
    lemma_fold_err_is_gas(verifiers, verifiers, reports, view, initial, limit);
}

/// Evaluation is deterministic: two evaluations of the same verifier list,
/// reports, state and gas meter give equal accepted and rejected lists,
/// equal errors in the order of the verifier list, and equal gas.
pub proof fn lemma_vps_deterministic(
    r1: Result<VpsResult, Error>,
    r2: Result<VpsResult, Error>,
    verifiers: Seq<Address>,
    reports: Seq<VpReport>,
    view: Map<Key, Amount>,
    initial: nat,
    limit: nat,
)
    requires
        summary_of(r1) == vps_fold(verifiers, verifiers, reports, view, initial, limit),
        summary_of(r2) == vps_fold(verifiers, verifiers, reports, view, initial, limit),
    ensures
        r1.is_ok() == r2.is_ok(),
        r1 matches Ok(a) ==> r2 matches Ok(b) && a.accepted_vps@ == b.accepted_vps@ && a.rejected_vps@
            == b.rejected_vps@ && a.errors@ == b.errors@ && a.gas_used == b.gas_used,
        r1 matches Err(e) ==> r2 == Err::<VpsResult, Error>(e),
{
}

/// The internal address whose access a verifier entry forbids: the
/// slash-pool and temporary-storage sentinels always, an IBC token or ERC-20
/// address where the multitoken address is not a verifier too.
pub open spec fn forbidden_kind(a: Address, verifiers: Seq<Address>) -> Option<InternalAddress> {
    match a {
        Address::Internal(k) => match k {
            InternalAddress::PosSlashPool | InternalAddress::TempStorage => Some(k),
            InternalAddress::IbcToken(_) | InternalAddress::Erc20(_) => if verifiers.contains(
                Address::Internal(InternalAddress::Multitoken),
            ) {
                None
            } else {
                Some(k)
            },
            _ => None,
        },
        _ => None,
    }
}

/// A transaction that names a forbidden sentinel as verifier has it
/// rejected with an access-forbidden error (unless gas ran out first).
pub proof fn lemma_sentinel_rejected(
    a: Address,
    verifiers: Seq<Address>,
    reports: Seq<VpReport>,
    view: Map<Key, Amount>,
    initial: nat,
    limit: nat,
)
    requires
        verifiers.contains(a),
        forbidden_kind(a, verifiers).is_some(),
    ensures
        vp_check(a, verifiers, reports, view).error == Some(
            Error::AccessForbidden(forbidden_kind(a, verifiers).unwrap()),
        ),
        match vps_fold(verifiers, verifiers, reports, view, initial, limit) {
            Ok(s) => s.rejected.contains(a) && !s.accepted.contains(a) && s.errors.contains(
                (a, Error::AccessForbidden(forbidden_kind(a, verifiers).unwrap())),
            ),
            Err(e) => e == Error::GasError,
        },
{
    lemma_fold_records(verifiers, verifiers, reports, view, initial, limit);
    lemma_fold_err_is_gas(verifiers, verifiers, reports, view, initial, limit);
}

} // verus!
