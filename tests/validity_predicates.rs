use ledger_protocol::address::{Address, InternalAddress, Key};
use ledger_protocol::error::{Error, RunnerError};
use ledger_protocol::gas::TxGasMeter;
use ledger_protocol::state::State;
use ledger_protocol::storage::Layer;
use ledger_protocol::vps::{execute_vps, merge_vp_results, VpOutcome, VpReport, VpsResult};

fn internal(k: InternalAddress) -> Address {
    Address::Internal(k)
}

fn report(addr: Address, gas: u64, outcome: VpOutcome) -> VpReport {
    VpReport { addr, gas, outcome }
}

fn state_with_vps(accounts: &[Address]) -> State {
    let mut storage = Layer::new();
    for a in accounts {
        storage.put(Key::Vp(*a), 7);
    }
    State::new(storage, 100, vec![])
}

#[test]
fn gas_failure_short_circuits() {
    let a = Address::Established(1);
    let b = Address::Established(2);
    let state = state_with_vps(&[a, b]);
    let verifiers = vec![a, b, internal(InternalAddress::PoS)];
    let reports = vec![
        report(a, 1, VpOutcome::Rejected),
        report(b, 1, VpOutcome::Failed(RunnerError::Gas)),
        report(internal(InternalAddress::PoS), 1, VpOutcome::Accepted),
    ];
    let r = execute_vps(&verifiers, &reports, &state, &TxGasMeter::new(1000));
    assert_eq!(r.unwrap_err(), Error::GasError);
}

#[test]
fn shared_ceiling_exceeded_across_vps() {
    let a = Address::Established(1);
    let b = Address::Established(2);
    let state = state_with_vps(&[a, b]);
    let verifiers = vec![a, b];
    let reports = vec![report(a, 6, VpOutcome::Accepted), report(b, 6, VpOutcome::Accepted)];
    let r = execute_vps(&verifiers, &reports, &state, &TxGasMeter::new(10));
    assert_eq!(r.unwrap_err(), Error::GasError);
    let ok = execute_vps(&verifiers, &reports, &state, &TxGasMeter::new(12)).unwrap();
    assert_eq!(ok.gas_used, 12);
}

#[test]
fn non_gas_failures_do_not_stop_evaluation() {
    let a = Address::Established(1);
    let b = Address::Implicit(2);
    let missing = Address::Established(3);
    let state = state_with_vps(&[a, b]);
    let verifiers = vec![a, missing, b, internal(InternalAddress::Governance), internal(InternalAddress::Ibc)];
    let reports = vec![
        report(a, 2, VpOutcome::Failed(RunnerError::InvalidSectionSignature)),
        report(b, 3, VpOutcome::Accepted),
        report(internal(InternalAddress::Governance), 4, VpOutcome::Rejected),
    ];
    let r = execute_vps(&verifiers, &reports, &state, &TxGasMeter::new(1000)).unwrap();
    assert_eq!(r.accepted_vps, vec![b]);
    assert_eq!(r.rejected_vps, vec![a, missing, internal(InternalAddress::Governance), internal(InternalAddress::Ibc)]);
    assert_eq!(
        r.errors,
        vec![
            (a, Error::InvalidSectionSignature),
            (missing, Error::MissingAddress(missing)),
            (internal(InternalAddress::Governance), Error::NativeVpError(InternalAddress::Governance)),
            (internal(InternalAddress::Ibc), Error::NativeVpError(InternalAddress::Ibc)),
        ]
    );
    assert!(r.invalid_signature);
    assert_eq!(r.gas_used, 9);
    assert!(!r.is_accepted());
}

#[test]
fn sentinel_addresses_are_forbidden() {
    let state = state_with_vps(&[]);
    let verifiers = vec![
        internal(InternalAddress::PosSlashPool),
        internal(InternalAddress::TempStorage),
        internal(InternalAddress::IbcToken(5)),
        internal(InternalAddress::Erc20(6)),
    ];
    let r = execute_vps(&verifiers, &vec![], &state, &TxGasMeter::new(0)).unwrap();
    assert!(r.accepted_vps.is_empty());
    assert_eq!(
        r.errors,
        vec![
            (verifiers[0], Error::AccessForbidden(InternalAddress::PosSlashPool)),
            (verifiers[1], Error::AccessForbidden(InternalAddress::TempStorage)),
            (verifiers[2], Error::AccessForbidden(InternalAddress::IbcToken(5))),
            (verifiers[3], Error::AccessForbidden(InternalAddress::Erc20(6))),
        ]
    );
    assert!(!r.invalid_signature);
}

#[test]
fn token_addresses_accepted_with_multitoken() {
    let state = state_with_vps(&[]);
    let mt = internal(InternalAddress::Multitoken);
    let verifiers = vec![internal(InternalAddress::IbcToken(5)), mt, internal(InternalAddress::Erc20(6))];
    let reports = vec![report(mt, 2, VpOutcome::Accepted)];
    let r = execute_vps(&verifiers, &reports, &state, &TxGasMeter::new(10)).unwrap();
    assert_eq!(r.accepted_vps, verifiers);
    assert!(r.rejected_vps.is_empty());
    assert_eq!(r.gas_used, 2);
}

#[test]
fn evaluation_is_deterministic() {
    let a = Address::Established(1);
    let state = state_with_vps(&[a]);
    let verifiers = vec![internal(InternalAddress::Pgf), a];
    let reports = vec![report(a, 1, VpOutcome::Rejected), report(internal(InternalAddress::Pgf), 2, VpOutcome::Accepted)];
    let meter = TxGasMeter::new(50);
    let r1 = execute_vps(&verifiers, &reports, &state, &meter).unwrap();
    let r2 = execute_vps(&verifiers, &reports, &state, &meter).unwrap();
    assert_eq!(r1.accepted_vps, r2.accepted_vps);
    assert_eq!(r1.rejected_vps, r2.rejected_vps);
    assert_eq!(r1.errors, r2.errors);
    assert_eq!(r1.gas_used, r2.gas_used);
}

#[test]
fn merge_concatenates_and_rechecks_ceiling() {
    let a = Address::Established(1);
    let b = Address::Established(2);
    let left = VpsResult { accepted_vps: vec![a], rejected_vps: vec![], errors: vec![], invalid_signature: false, gas_used: 3 };
    let right = VpsResult {
        accepted_vps: vec![],
        rejected_vps: vec![b],
        errors: vec![(b, Error::InvalidSectionSignature)],
        invalid_signature: true,
        gas_used: 4,
    };
    let mut meter = TxGasMeter::new(10);
    meter.consume(3).unwrap();
    let m = merge_vp_results(left, right, &meter).unwrap();
    assert_eq!(m.accepted_vps, vec![a]);
    assert_eq!(m.rejected_vps, vec![b]);
    assert!(m.invalid_signature);
    assert_eq!(m.gas_used, 7);
    let l2 = VpsResult { accepted_vps: vec![], rejected_vps: vec![], errors: vec![], invalid_signature: false, gas_used: 4 };
    let r2 = VpsResult { accepted_vps: vec![], rejected_vps: vec![], errors: vec![], invalid_signature: false, gas_used: 4 };
    assert_eq!(merge_vp_results(l2, r2, &meter).unwrap_err(), Error::GasError);
}

#[test]
fn gas_meter_consumes_up_to_limit() {
    let mut meter = TxGasMeter::new(100);
    assert_eq!(meter.add_wrapper_gas(7), Ok(()));
    assert_eq!(meter.get_tx_consumed_gas(), 70);
    assert_eq!(meter.add_wrapper_gas(4), Err(Error::GasError));
    assert_eq!(meter.get_tx_consumed_gas(), 70);
    assert_eq!(meter.add_vps_gas(30), Ok(()));
    assert_eq!(meter.consume(1), Err(Error::GasError));
    let mut small = TxGasMeter::new(50);
    assert_eq!(small.copy_consumed_gas_from(&meter), Err(Error::GasError));
    assert_eq!(small.transaction_gas, 0);
}
