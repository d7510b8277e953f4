use ledger_protocol::address::{Address, InternalAddress, Key, TX_TRANSFER_WASM};
use ledger_protocol::dispatch::{dispatch_tx, run_fee_unshielding, TxRuns, UnshieldRun, WrapperArgs};
use ledger_protocol::error::{Error, FeeFailure, RunnerError, WrapperFailure};
use ledger_protocol::fees::{check_fees, token_transfer, transfer_fee};
use ledger_protocol::gas::TxGasMeter;
use ledger_protocol::payload::{apply_wasm_tx, IbcEvent, PayloadRun};
use ledger_protocol::state::{get_transfer_hash_from_storage, State};
use ledger_protocol::storage::Layer;
use ledger_protocol::tx::{get_fee_unshielding_transaction, Fee, Section, SectionKind, Tx, TxType, WrapperTx};
use ledger_protocol::vps::{execute_vps, VpOutcome, VpReport};

const TOKEN: Address = Address::Established(0xff);
const PAYER: Address = Address::Implicit(0xab);
const PROPOSER: Address = Address::Established(0xba);

fn multitoken() -> Address {
    Address::Internal(InternalAddress::Multitoken)
}

fn balance_key(owner: Address) -> Key {
    Key::Balance { token: TOKEN, owner }
}

fn state_with_balance(owner: Address, amount: u128) -> State {
    let mut storage = Layer::new();
    storage.put(balance_key(owner), amount);
    State::new(storage, 500, vec![])
}

fn accept(addr: Address, gas: u64) -> VpReport {
    VpReport { addr, gas, outcome: VpOutcome::Accepted }
}

fn empty_run() -> PayloadRun {
    PayloadRun { writes: vec![], verifiers: vec![], gas: 0, failure: None, vp_reports: vec![], initialized_accounts: vec![], ibc_events: vec![] }
}

fn wrapper(price: u128, gas_limit: u64, unshield: Option<u128>) -> WrapperTx {
    WrapperTx {
        fee: Fee { amount_per_gas_unit: price, token: TOKEN },
        fee_payer: PAYER,
        gas_limit,
        unshield_section_hash: unshield,
    }
}

fn wrapper_tx(w: WrapperTx, sections: Vec<Section>) -> Tx {
    Tx { header: TxType::Wrapper(w), header_hash: 0x11, raw_header_hash: 0x22, sections, data: None }
}

#[test]
fn test_native_vp_out_of_gas() {
    let mut state = state_with_balance(Address::Established(0xab), 1000);
    state.write_log.commit_tx();
    state.commit_block();
    // transfer half of the supply of src to dst
    token_transfer(&mut state, &TOKEN, &Address::Established(0xab), &Address::Established(0xba), 500).unwrap();
    let verifiers = vec![multitoken()];
    // the multitoken predicate reads storage, which costs gas
    let reports = vec![accept(multitoken(), 20)];
    // gas meter with no gas left
    let gas_meter = TxGasMeter::new(0);
    let result = execute_vps(&verifiers, &reports, &state, &gas_meter);
    assert!(matches!(result.unwrap_err(), Error::GasError));
}

#[test]
fn token_transfer_moves_balances() {
    let mut state = state_with_balance(PAYER, 1000);
    token_transfer(&mut state, &TOKEN, &PAYER, &PROPOSER, 500).unwrap();
    assert_eq!(state.read_balance(&TOKEN, &PAYER), 500);
    assert_eq!(state.read_balance(&TOKEN, &PROPOSER), 500);
    // written to the tx buffer, not to storage
    assert_eq!(state.storage.get(&balance_key(PROPOSER)), None);
    assert_eq!(state.write_log.tx.get(&balance_key(PROPOSER)), Some(500));
}

#[test]
fn token_transfer_errors() {
    let mut state = state_with_balance(PAYER, 10);
    assert_eq!(
        token_transfer(&mut state, &TOKEN, &PAYER, &PROPOSER, 11),
        Err(Error::FeeError(FeeFailure::InsufficientSourceBalance))
    );
    assert_eq!(token_transfer(&mut state, &TOKEN, &PAYER, &PAYER, 10), Ok(()));
    assert_eq!(state.write_log.tx.entries.len(), 0);
    state.storage.put(balance_key(PROPOSER), u128::MAX);
    assert_eq!(
        token_transfer(&mut state, &TOKEN, &PAYER, &PROPOSER, 1),
        Err(Error::FeeError(FeeFailure::DestinationOverflow))
    );
    assert_eq!(state.read_balance(&TOKEN, &PAYER), 10);
}

#[test]
fn check_fees_outcomes() {
    let state = state_with_balance(PAYER, 100);
    assert_eq!(check_fees(&state, &wrapper(2, 50, None)), Ok(()));
    assert_eq!(
        check_fees(&state, &wrapper(2, 51, None)),
        Err(Error::FeeError(FeeFailure::InsufficientBalance))
    );
    assert_eq!(
        check_fees(&state, &wrapper(u128::MAX, 2, None)),
        Err(Error::FeeError(FeeFailure::FeeOverflow))
    );
}

#[test]
fn transfer_fee_exact_and_drain() {
    let mut state = state_with_balance(PAYER, 100);
    transfer_fee(&mut state, &PROPOSER, &wrapper(3, 10, None)).unwrap();
    assert_eq!(state.read_balance(&TOKEN, &PAYER), 70);
    assert_eq!(state.read_balance(&TOKEN, &PROPOSER), 30);
    let r = transfer_fee(&mut state, &PROPOSER, &wrapper(1, 71, None));
    assert_eq!(r, Err(Error::FeeError(FeeFailure::InsufficientBalance)));
    assert_eq!(state.read_balance(&TOKEN, &PAYER), 0);
    assert_eq!(state.read_balance(&TOKEN, &PROPOSER), 100);
}

#[test]
fn wrapper_with_insufficient_fee_balance() {
    let mut state = state_with_balance(PAYER, 50);
    let tx = wrapper_tx(wrapper(1, 100, None), vec![]);
    let mut meter = TxGasMeter::new(1000);
    let runs = TxRuns { inner: empty_run(), unshield: None };
    let mut args = Some(WrapperArgs { block_proposer: PROPOSER, is_committed_fee_unshield: false });
    let r = dispatch_tx(&tx, 10, &mut meter, &mut state, &runs, &mut args);
    assert_eq!(r.unwrap_err(), Error::WrapperRunnerError(WrapperFailure::Fee(FeeFailure::InsufficientBalance)));
    // everything the payer held went to the proposer
    assert_eq!(state.read_balance(&TOKEN, &PAYER), 0);
    assert_eq!(state.read_balance(&TOKEN, &PROPOSER), 50);
    // the replay entry stands, so the payer cannot be charged again
    assert!(state.write_log.has_replay_protection_entry(0x11));
    let again = dispatch_tx(&tx, 10, &mut meter, &mut state, &runs, &mut args);
    assert_eq!(again.unwrap_err(), Error::WrapperRunnerError(WrapperFailure::Replay(0x11)));
    assert_eq!(state.read_balance(&TOKEN, &PROPOSER), 50);
}

fn unshield_setup() -> (State, Tx, TxRuns) {
    let mut state = state_with_balance(PAYER, 200);
    state.storage.put(Key::CodeName(TX_TRANSFER_WASM), 0xc0de);
    let masp = Address::Internal(InternalAddress::Masp);
    let tx = wrapper_tx(
        wrapper(1, 100, Some(0x5)),
        vec![Section { hash: 0x5, kind: SectionKind::MaspTx(0x77) }],
    );
    let unshield = UnshieldRun {
        tx_hash: 0x33,
        run: PayloadRun {
            writes: vec![(balance_key(PAYER), 10_000)],
            verifiers: vec![masp],
            gas: 5,
            failure: None,
            vp_reports: vec![
                VpReport { addr: masp, gas: 1, outcome: VpOutcome::Rejected },
                accept(multitoken(), 1),
                accept(TOKEN, 1),
                accept(PAYER, 1),
            ],
            initialized_accounts: vec![],
            ibc_events: vec![],
        },
    };
    let inner = PayloadRun {
        writes: vec![(Key::Sub(PROPOSER, 1), 9)],
        verifiers: vec![],
        gas: 7,
        failure: None,
        vp_reports: vec![accept(PROPOSER, 3)],
        initialized_accounts: vec![Address::Established(0x99)],
        ibc_events: vec![IbcEvent { event_type: 1, attributes: 0xe1 }],
    };
    state.storage.put(Key::Vp(PROPOSER), 0xabc);
    state.storage.put(Key::Vp(PAYER), 0xabc);
    state.storage.put(Key::Vp(TOKEN), 0xabc);
    (state, tx, TxRuns { inner, unshield: Some(unshield) })
}

#[test]
fn rejected_fee_unshielding_falls_back_to_transparent_fees() {
    let (mut state, tx, runs) = unshield_setup();
    let mut meter = TxGasMeter::new(1000);
    let mut args = Some(WrapperArgs { block_proposer: PROPOSER, is_committed_fee_unshield: true });
    let r = dispatch_tx(&tx, 10, &mut meter, &mut state, &runs, &mut args).unwrap();
    assert_eq!(args.unwrap().is_committed_fee_unshield, false);
    // the unshielding's write is gone; the transparent fee was paid
    assert_eq!(state.read_balance(&TOKEN, &PAYER), 100);
    assert_eq!(state.read_balance(&TOKEN, &PROPOSER), 100);
    // the inner payload ran normally
    assert_eq!(r.vps_result.accepted_vps, vec![PROPOSER]);
    assert!(r.is_accepted());
    assert_eq!(r.changed_keys, vec![Key::Sub(PROPOSER, 1)]);
    assert_eq!(state.read(&Key::Sub(PROPOSER, 1)), Some(9));
    assert_eq!(r.initialized_accounts, vec![Address::Established(0x99)]);
    assert_eq!(r.ibc_events, vec![IbcEvent { event_type: 1, attributes: 0xe1 }]);
    assert!(r.eth_bridge_events.is_empty());
    // unshield gas 5 and its four predicates, wrapper gas 10 * 10, inner 7 + 3
    assert_eq!(r.gas_used, 5 + 4 + 100 + 7 + 3);
    assert!(r.gas_used <= meter.tx_gas_limit);
}

#[test]
fn rejected_unshield_keeps_precommitted_writes() {
    let (mut state, _tx, runs) = unshield_setup();
    state.write_log.write(Key::Sub(PAYER, 4), 44);
    let mut meter = TxGasMeter::new(1000);
    let r = run_fee_unshielding(runs.unshield.as_ref().unwrap(), &mut meter, &mut state);
    assert_eq!(r, Ok(false));
    assert_eq!(state.write_log.precommit.get(&Key::Sub(PAYER, 4)), Some(44));
    assert_eq!(state.write_log.tx.entries.len(), 0);
    assert_eq!(state.read_balance(&TOKEN, &PAYER), 200);
    assert_eq!(meter.transaction_gas, 9);
}

#[test]
fn accepted_unshield_is_kept() {
    let (mut state, _tx, mut runs) = unshield_setup();
    let masp = Address::Internal(InternalAddress::Masp);
    let u = runs.unshield.as_mut().unwrap();
    u.run.vp_reports[0] = accept(masp, 1);
    let mut meter = TxGasMeter::new(1000);
    let r = run_fee_unshielding(runs.unshield.as_ref().unwrap(), &mut meter, &mut state);
    assert_eq!(r, Ok(true));
    assert_eq!(state.read_balance(&TOKEN, &PAYER), 10_000);
}

#[test]
fn unshield_bounded_by_its_gas_limit() {
    let (mut state, _tx, runs) = unshield_setup();
    state.fee_unshielding_gas_limit = 5;
    let mut meter = TxGasMeter::new(1000);
    let r = run_fee_unshielding(runs.unshield.as_ref().unwrap(), &mut meter, &mut state);
    assert_eq!(r, Err(Error::GasError));
    // the payload's gas fitted, its predicates' did not: the payload's is charged
    assert_eq!(meter.transaction_gas, 5);
    assert_eq!(state.read_balance(&TOKEN, &PAYER), 200);
}

#[test]
fn unshield_without_transfer_code_is_skipped() {
    let (mut state, _tx, runs) = unshield_setup();
    state.storage = Layer::new();
    assert_eq!(get_transfer_hash_from_storage(&state), None);
    let mut meter = TxGasMeter::new(1000);
    let r = run_fee_unshielding(runs.unshield.as_ref().unwrap(), &mut meter, &mut state);
    assert_eq!(r, Ok(false));
    assert_eq!(meter.transaction_gas, 0);
}

#[test]
fn fee_unshielding_section_lookup() {
    let (_state, tx, _runs) = unshield_setup();
    let w = wrapper(1, 100, Some(0x5));
    assert_eq!(get_fee_unshielding_transaction(&tx, &w), Some(0x77));
    assert_eq!(get_fee_unshielding_transaction(&tx, &wrapper(1, 100, Some(0x6))), None);
    assert_eq!(get_fee_unshielding_transaction(&tx, &wrapper(1, 100, None)), None);
    let code = wrapper_tx(w, vec![Section { hash: 0x5, kind: SectionKind::Code }]);
    assert_eq!(get_fee_unshielding_transaction(&code, &w), None);
}

#[test]
fn replayed_wrapper_is_refused_and_changes_nothing() {
    let mut state = state_with_balance(PAYER, 1000);
    state.storage.put(Key::Vp(PROPOSER), 1);
    let tx = wrapper_tx(wrapper(1, 100, None), vec![]);
    let runs = TxRuns {
        inner: PayloadRun {
            writes: vec![],
            verifiers: vec![PROPOSER],
            gas: 1,
            failure: None,
            vp_reports: vec![accept(PROPOSER, 1)],
            initialized_accounts: vec![],
            ibc_events: vec![],
        },
        unshield: None,
    };
    let mut meter = TxGasMeter::new(10_000);
    let mut args = Some(WrapperArgs { block_proposer: PROPOSER, is_committed_fee_unshield: false });
    let first = dispatch_tx(&tx, 4, &mut meter, &mut state, &runs, &mut args).unwrap();
    assert_eq!(first.gas_used, 40 + 1 + 1);
    assert_eq!(first.wrapper_changed_keys.len(), 2);
    let payer_after = state.read_balance(&TOKEN, &PAYER);
    assert_eq!(payer_after, 900);
    let second = dispatch_tx(&tx, 4, &mut meter, &mut state, &runs, &mut args);
    assert_eq!(second.unwrap_err(), Error::WrapperRunnerError(WrapperFailure::Replay(0x11)));
    assert_eq!(state.read_balance(&TOKEN, &PAYER), payer_after);
    assert_eq!(meter.transaction_gas, 42);
}

#[test]
fn wrapper_gas_exceeding_limit_fails() {
    let mut state = state_with_balance(PAYER, 1000);
    let tx = wrapper_tx(wrapper(1, 10, None), vec![]);
    let runs = TxRuns { inner: empty_run(), unshield: None };
    let mut meter = TxGasMeter::new(99);
    let mut args = None;
    let r = dispatch_tx(&tx, 10, &mut meter, &mut state, &runs, &mut args);
    assert_eq!(r.unwrap_err(), Error::WrapperRunnerError(WrapperFailure::Gas));
    // fees were only checked, not moved, without a proposer
    assert_eq!(state.read_balance(&TOKEN, &PAYER), 1000);
}

#[test]
fn inner_replay_is_refused() {
    let mut state = state_with_balance(PAYER, 1000);
    state.write_log.write_tx_hash(0x22);
    let mut meter = TxGasMeter::new(100);
    let r = apply_wasm_tx(0x22, &empty_run(), &mut meter, &mut state);
    assert_eq!(r.unwrap_err(), Error::ReplayAttempt(0x22));
    assert_eq!(meter.transaction_gas, 0);
}

#[test]
fn failed_payload_drops_tx_buffer() {
    let mut state = state_with_balance(PAYER, 1000);
    state.write_log.write(Key::Sub(PAYER, 1), 1);
    let run = PayloadRun {
        writes: vec![(Key::Sub(PAYER, 2), 2)],
        verifiers: vec![],
        gas: 3,
        failure: Some(RunnerError::MissingSection),
        vp_reports: vec![],
        initialized_accounts: vec![],
        ibc_events: vec![],
    };
    let mut meter = TxGasMeter::new(100);
    let r = apply_wasm_tx(0x1, &run, &mut meter, &mut state);
    assert_eq!(r.unwrap_err(), Error::MissingSection);
    assert_eq!(state.write_log.tx.entries.len(), 0);
    assert_eq!(state.read_balance(&TOKEN, &PAYER), 1000);
    assert_eq!(meter.transaction_gas, 3);
    let other = PayloadRun { failure: Some(RunnerError::Other), ..run };
    assert_eq!(apply_wasm_tx(0x1, &other, &mut meter, &mut state).unwrap_err(), Error::TxRunnerError);
    let gas = PayloadRun { failure: Some(RunnerError::Gas), ..other };
    assert_eq!(apply_wasm_tx(0x1, &gas, &mut meter, &mut state).unwrap_err(), Error::GasError);
}

#[test]
fn raw_tx_runs_payload_and_vps() {
    let mut state = state_with_balance(PAYER, 1000);
    state.storage.put(Key::Vp(PAYER), 1);
    state.storage.put(Key::Vp(PROPOSER), 1);
    state.storage.put(Key::Vp(TOKEN), 1);
    let inner = PayloadRun {
        writes: vec![(balance_key(PAYER), 1), (balance_key(PROPOSER), 999)],
        verifiers: vec![PROPOSER],
        gas: 10,
        failure: None,
        vp_reports: vec![accept(PROPOSER, 1), accept(multitoken(), 2), accept(TOKEN, 3), accept(PAYER, 4)],
        initialized_accounts: vec![],
        ibc_events: vec![],
    };
    let tx = Tx { header: TxType::Raw, header_hash: 1, raw_header_hash: 2, sections: vec![], data: None };
    let mut meter = TxGasMeter::new(1000);
    let r = dispatch_tx(&tx, 0, &mut meter, &mut state, &TxRuns { inner, unshield: None }, &mut None).unwrap();
    // named verifiers and owners of written keys, each once, in canonical order
    assert_eq!(r.vps_result.accepted_vps, vec![PAYER, PROPOSER, TOKEN, multitoken()]);
    assert_eq!(r.gas_used, 10 + 1 + 2 + 3 + 4);
    assert_eq!(meter.transaction_gas, 20);
    assert_eq!(state.storage.get(&balance_key(PAYER)), Some(1000));
}
