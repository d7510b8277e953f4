use ledger_protocol::address::{Address, VoteSubject};
use ledger_protocol::dispatch::apply_protocol_tx;
use ledger_protocol::error::{Error, ProtocolFailure};
use ledger_protocol::protocol::{seen_by, voting_power, EthereumTxData, ProtocolTxType};
use ledger_protocol::state::State;
use ledger_protocol::storage::Layer;

fn validator_a() -> Address {
    Address::Established(2)
}

fn validator_b() -> Address {
    Address::Established(3)
}

fn two_validators() -> State {
    State::new(Layer::new(), 1000, vec![(validator_a(), 100), (validator_b(), 100)])
}

#[test]
fn test_apply_protocol_tx_duplicate_eth_events_vext() {
    let mut state = two_validators();
    let total_stake: u128 = 100 + 100;
    let event: u128 = 0xda1;
    let data = EthereumTxData::EthEventsVext { validator: validator_a(), block_height: 100, events: vec![event] };
    apply_protocol_tx(ProtocolTxType::EthEventsVext, &Some(data.clone()), &mut state).unwrap();
    apply_protocol_tx(ProtocolTxType::EthEventsVext, &Some(data), &mut state).unwrap();

    let subject = VoteSubject::EthEvent(event);
    assert_eq!(seen_by(&state.votes, &subject), vec![(validator_a(), 100)]);
    // the vote is counted once
    assert_eq!(voting_power(&state.votes, &subject), Some(total_stake / 2));
}

#[test]
fn test_apply_protocol_tx_duplicate_bp_roots_vext() {
    let mut state = two_validators();
    let total_stake: u128 = 100 + 100;
    let root: u128 = 0xb00;
    let nonce: u64 = 0;
    let data = EthereumTxData::BridgePoolVext { validator: validator_a(), block_height: 100, root, nonce };
    apply_protocol_tx(ProtocolTxType::BridgePoolVext, &Some(data.clone()), &mut state).unwrap();
    apply_protocol_tx(ProtocolTxType::BridgePoolVext, &Some(data), &mut state).unwrap();

    let subject = VoteSubject::BridgePoolRoot { root, nonce, height: 100 };
    assert_eq!(seen_by(&state.votes, &subject), vec![(validator_a(), 100)]);
    assert_eq!(voting_power(&state.votes, &subject), Some(total_stake / 2));
}

#[test]
fn distinct_validators_both_count() {
    let mut state = two_validators();
    let event: u128 = 7;
    let from_a = EthereumTxData::EthEventsVext { validator: validator_a(), block_height: 100, events: vec![event] };
    let from_b = EthereumTxData::EthEventsVext { validator: validator_b(), block_height: 100, events: vec![event] };
    apply_protocol_tx(ProtocolTxType::EthEventsVext, &Some(from_a), &mut state).unwrap();
    apply_protocol_tx(ProtocolTxType::EthEventsVext, &Some(from_b), &mut state).unwrap();
    let subject = VoteSubject::EthEvent(event);
    assert_eq!(seen_by(&state.votes, &subject), vec![(validator_a(), 100), (validator_b(), 100)]);
    assert_eq!(voting_power(&state.votes, &subject), Some(200));
}

#[test]
fn second_application_changes_no_tally() {
    let mut state = two_validators();
    let data = EthereumTxData::EthEventsVext { validator: validator_b(), block_height: 5, events: vec![1, 2, 1] };
    let first = apply_protocol_tx(ProtocolTxType::EthEventsVext, &Some(data.clone()), &mut state).unwrap();
    assert_eq!(first.changed_keys.len(), 2);
    let votes_once = state.votes.clone();
    let second = apply_protocol_tx(ProtocolTxType::EthEventsVext, &Some(data), &mut state).unwrap();
    assert_eq!(second.changed_keys.len(), 0);
    assert_eq!(state.votes, votes_once);
    assert_eq!(voting_power(&state.votes, &VoteSubject::EthEvent(1)), Some(100));
}

#[test]
fn val_set_update_vext_records_last_block_height() {
    let mut state = two_validators();
    state.last_block_height = 42;
    let data = EthereumTxData::ValSetUpdateVext { validator: validator_a(), signing_epoch: 3 };
    apply_protocol_tx(ProtocolTxType::ValSetUpdateVext, &Some(data), &mut state).unwrap();
    assert_eq!(seen_by(&state.votes, &VoteSubject::ValSetUpdate(3)), vec![(validator_a(), 42)]);
}

#[test]
fn protocol_tx_without_data_fails() {
    let mut state = two_validators();
    let r = apply_protocol_tx(ProtocolTxType::EthEventsVext, &None, &mut state);
    assert_eq!(r.unwrap_err(), Error::ProtocolTxError(ProtocolFailure::MissingData));
}

#[test]
fn protocol_tx_of_another_kind_fails() {
    let mut state = two_validators();
    let data = EthereumTxData::ValSetUpdateVext { validator: validator_a(), signing_epoch: 1 };
    let r = apply_protocol_tx(ProtocolTxType::BridgePoolVext, &Some(data), &mut state);
    assert_eq!(r.unwrap_err(), Error::ProtocolTxError(ProtocolFailure::KindMismatch));
    assert!(state.votes.is_empty());
}

#[test]
fn protocol_tx_from_unknown_validator_fails() {
    let mut state = two_validators();
    let data = EthereumTxData::EthEventsVext { validator: Address::Established(9), block_height: 1, events: vec![1] };
    let r = apply_protocol_tx(ProtocolTxType::EthEventsVext, &Some(data), &mut state);
    assert_eq!(r.unwrap_err(), Error::ProtocolTxError(ProtocolFailure::UnknownValidator));
}

#[test]
fn plain_protocol_kinds_take_no_action() {
    let mut state = two_validators();
    let r = apply_protocol_tx(ProtocolTxType::BridgePool, &Some(EthereumTxData::BridgePool), &mut state).unwrap();
    assert_eq!(r.changed_keys.len(), 0);
    assert_eq!(r.gas_used, 0);
    assert!(state.votes.is_empty());
}
