//! Application of protocol transactions: validators' vote extensions folded
//! into per-subject tallies, without gas or validity predicates.
use vstd::prelude::*;
use crate::address::{Address, Amount, Digest, Key, VoteSubject};
use crate::error::{Error, ProtocolFailure};
use crate::state::State;

verus! {

/// One validator's vote on a subject, with the block height it was cast at
/// and the stake behind it.
#[derive(Clone, Copy, Debug, PartialEq, Eq, Structural)]
pub struct Vote {
    pub subject: VoteSubject,
    pub validator: Address,
    pub height: u64,
    pub stake: Amount,
}

/// The kind of a protocol transaction, named by its header.
#[derive(Clone, Copy, Debug, PartialEq, Eq, Structural)]
pub enum ProtocolTxType {
    EthEventsVext,
    BridgePoolVext,
    ValSetUpdateVext,
    EthereumEvents,
    BridgePool,
    ValidatorSetUpdate,
}

/// The decoded data of a protocol transaction.
#[derive(Clone, Debug)]
pub enum EthereumTxData {
    /// A validator's vote extension on observed Ethereum events, by digest.
    EthEventsVext { validator: Address, block_height: u64, events: Vec<Digest> },
    /// A validator's attestation of a bridge-pool root and nonce.
    BridgePoolVext { validator: Address, block_height: u64, root: Digest, nonce: u64 },
    /// A validator's signature on the validator-set update of an epoch.
    ValSetUpdateVext { validator: Address, signing_epoch: u64 },
    EthereumEvents,
    BridgePool,
    ValidatorSetUpdate,
}

/// Whether `validator` has voted on `subject`.
pub open spec fn has_vote(votes: Seq<Vote>, subject: VoteSubject, validator: Address) -> bool {
    exists|i: int| 0 <= i < votes.len() && votes[i].subject == subject && votes[i].validator == validator
}

/// The votes after `validator` votes on `subject`: one vote per validator
/// and subject, the first one standing.
pub open spec fn cast_vote(
    votes: Seq<Vote>,
    subject: VoteSubject,
    validator: Address,
    height: u64,
    stake: Amount,
) -> Seq<Vote> {
    if has_vote(votes, subject, validator) {
        votes
    } else {
        votes.push(Vote { subject, validator, height, stake })
    }
}

/// The votes after `validator` votes on each of `subjects` in turn.
pub open spec fn cast_votes(
    votes: Seq<Vote>,
    subjects: Seq<VoteSubject>,
    validator: Address,
    height: u64,
    stake: Amount,
) -> Seq<Vote>
    decreases subjects.len(),
{
    if subjects.len() == 0 {
        votes
    } else {
        cast_vote(
            cast_votes(votes, subjects.drop_last(), validator, height, stake),
            subjects.last(),
            validator,
            height,
            stake,
        )
    }
}

/// The tally keys that casting those votes changed, in order.
pub open spec fn cast_votes_keys(
    votes: Seq<Vote>,
    subjects: Seq<VoteSubject>,
    validator: Address,
    height: u64,
    stake: Amount,
) -> Seq<Key>
    decreases subjects.len(),
{
    if subjects.len() == 0 {
        Seq::empty()
    } else {
        let before = cast_votes(votes, subjects.drop_last(), validator, height, stake);
        let keys = cast_votes_keys(votes, subjects.drop_last(), validator, height, stake);
        if has_vote(before, subjects.last(), validator) {
            keys
        } else {
            keys.push(Key::Tally(subjects.last()))
        }
    }
}

/// The stake of `a` in the validator set, if it is a validator.
pub open spec fn stake_of(validators: Seq<(Address, Amount)>, a: Address) -> Option<Amount>
    decreases validators.len(),
{
    if validators.len() == 0 {
        None
    } else if validators[0].0 == a {
        Some(validators[0].1)
    } else {
        stake_of(validators.subrange(1, validators.len() as int), a)
    }
}

/// The voting power behind `subject`: the stakes of its voters.
pub open spec fn voting_power_of(votes: Seq<Vote>, subject: VoteSubject) -> nat
    decreases votes.len(),
{
    if votes.len() == 0 {
        0
    } else {
        voting_power_of(votes.drop_last(), subject) + if votes.last().subject == subject {
            votes.last().stake as nat
        } else {
            0
        }
    }
}

/// The voters on `subject` with the heights they voted at, in order.
pub open spec fn seen_by_of(votes: Seq<Vote>, subject: VoteSubject) -> Seq<(Address, u64)>
    decreases votes.len(),
{
    if votes.len() == 0 {
        Seq::empty()
    } else if votes.last().subject == subject {
        seen_by_of(votes.drop_last(), subject).push((votes.last().validator, votes.last().height))
    } else {
        seen_by_of(votes.drop_last(), subject)
    }
}

/// Whether `data` is of the kind that `kind` names.
pub open spec fn data_matches(kind: ProtocolTxType, data: EthereumTxData) -> bool {
    match data {
        EthereumTxData::EthEventsVext { .. } => kind == ProtocolTxType::EthEventsVext,
        EthereumTxData::BridgePoolVext { .. } => kind == ProtocolTxType::BridgePoolVext,
        EthereumTxData::ValSetUpdateVext { .. } => kind == ProtocolTxType::ValSetUpdateVext,
        EthereumTxData::EthereumEvents => kind == ProtocolTxType::EthereumEvents,
        EthereumTxData::BridgePool => kind == ProtocolTxType::BridgePool,
        EthereumTxData::ValidatorSetUpdate => kind == ProtocolTxType::ValidatorSetUpdate,
    }
}

/// The vote a vote extension casts: its validator, its subjects and the
/// height it is recorded at; `None` for data that casts none.
pub open spec fn vext_votes(data: EthereumTxData, last_block_height: u64) -> Option<
    (Address, Seq<VoteSubject>, u64),
> {
    match data {
        EthereumTxData::EthEventsVext { validator, block_height, events } => Some(
            (validator, events@.map_values(|e: Digest| VoteSubject::EthEvent(e)), block_height),
        ),
        EthereumTxData::BridgePoolVext { validator, block_height, root, nonce } => Some(
            (validator, seq![VoteSubject::BridgePoolRoot { root, nonce, height: block_height }], block_height),
        ),
        EthereumTxData::ValSetUpdateVext { validator, signing_epoch } => Some(
            (validator, seq![VoteSubject::ValSetUpdate(signing_epoch)], last_block_height),
        ),
        _ => None,
    }
}

/// Applying a protocol transaction to the votes: the votes afterwards and
/// the tally keys changed.
pub open spec fn protocol_spec(
    kind: ProtocolTxType,
    data: Option<EthereumTxData>,
    votes: Seq<Vote>,
    validators: Seq<(Address, Amount)>,
    last_block_height: u64,
) -> Result<(Seq<Vote>, Seq<Key>), Error> {
    match data {
        None => Err(Error::ProtocolTxError(ProtocolFailure::MissingData)),
        Some(d) => if !data_matches(kind, d) {
            Err(Error::ProtocolTxError(ProtocolFailure::KindMismatch))
        } else {
            match vext_votes(d, last_block_height) {
                None => Ok((votes, Seq::empty())),
                Some((validator, subjects, height)) => match stake_of(validators, validator) {
                    None => Err(Error::ProtocolTxError(ProtocolFailure::UnknownValidator)),
                    Some(stake) => Ok(
                        (
                            cast_votes(votes, subjects, validator, height, stake),
                            cast_votes_keys(votes, subjects, validator, height, stake),
                        ),
                    ),
                },
            }
        },
    }
}

/// The stake of validator `a`.
pub fn find_stake(validators: &Vec<(Address, Amount)>, a: &Address) -> (r: Option<Amount>)
    ensures
        r == stake_of(validators@, *a),
{
    let mut i: usize = 0;
    assert(validators@.subrange(0, validators@.len() as int) =~= validators@);
    while i < validators.len()
        invariant
            i <= validators@.len(),
            stake_of(validators@, *a) == stake_of(validators@.subrange(i as int, validators@.len() as int), *a),
        decreases validators@.len() - i,
    {
        let ghost rest = validators@.subrange(i as int, validators@.len() as int);
        assert(rest.subrange(1, rest.len() as int) =~= validators@.subrange(i as int + 1, validators@.len() as int));
        if validators[i].0 == *a {
            return Some(validators[i].1);
        }
        i = i + 1;
    }
    None
}

/// Cast one vote; returns whether it was new.
pub fn apply_vote(votes: &mut Vec<Vote>, subject: VoteSubject, validator: Address, height: u64, stake: Amount) -> (r:
    bool)
    ensures
        final(votes)@ == cast_vote(old(votes)@, subject, validator, height, stake),
        r == !has_vote(old(votes)@, subject, validator),
{
    let mut i: usize = 0;
    while i < votes.len()
        invariant
            i <= votes@.len(),
            votes@ == old(votes)@,
            forall|j: int| 0 <= j < i ==> !(votes@[j].subject == subject && votes@[j].validator == validator),
        decreases votes@.len() - i,
    {
        if votes[i].subject == subject && votes[i].validator == validator {
            return false;
        }
        i = i + 1;
    }
    votes.push(Vote { subject, validator, height, stake });
    true
}

/// Cast a vote of `validator` on each of `subjects`; returns the tally keys changed.
pub fn apply_votes(
    votes: &mut Vec<Vote>,
    subjects: &Vec<VoteSubject>,
    validator: Address,
    height: u64,
    stake: Amount,
) -> (r: Vec<Key>)
    ensures
        final(votes)@ == cast_votes(old(votes)@, subjects@, validator, height, stake),
        r@ == cast_votes_keys(old(votes)@, subjects@, validator, height, stake),
{
    let mut keys: Vec<Key> = Vec::new();
    let mut i: usize = 0;
    while i < subjects.len()
        invariant
            i <= subjects@.len(),
            votes@ == cast_votes(old(votes)@, subjects@.take(i as int), validator, height, stake),
            keys@ == cast_votes_keys(old(votes)@, subjects@.take(i as int), validator, height, stake),
        decreases subjects@.len() - i,
    {
        proof {
            assert(subjects@.take(i as int + 1).drop_last() =~= subjects@.take(i as int));
        }
        let subject = subjects[i];
        if apply_vote(votes, subject, validator, height, stake) {
            keys.push(Key::Tally(subject));
        }
        i = i + 1;
    }
    assert(subjects@.take(subjects@.len() as int) =~= subjects@);
    keys
}

/// Fold a protocol transaction into the vote tallies. No gas is metered and
/// no validity predicate runs. Returns the tally keys changed.
pub fn apply_protocol_votes(kind: ProtocolTxType, data: &Option<EthereumTxData>, state: &mut State) -> (r: Result<
    Vec<Key>,
    Error,
>)
    ensures
        final(state).wf() == old(state).wf(),
        final(state).storage == old(state).storage,
        final(state).write_log == old(state).write_log,
        final(state).validators == old(state).validators,
        final(state).last_block_height == old(state).last_block_height,
        final(state).fee_unshielding_gas_limit == old(state).fee_unshielding_gas_limit,
        match protocol_spec(kind, *data, old(state).votes@, old(state).validators@, old(state).last_block_height) {
            Ok((votes, keys)) => r.is_ok() && r.unwrap()@ == keys && final(state).votes@ == votes,
            Err(e) => r == Err::<Vec<Key>, Error>(e) && final(state).votes@ == old(state).votes@,
        },
{
    let d = match data {
        None => {
            return Err(Error::ProtocolTxError(ProtocolFailure::MissingData));
        },
        Some(d) => d,
    };
    let matches_kind = match d {
        EthereumTxData::EthEventsVext { .. } => kind == ProtocolTxType::EthEventsVext,
        EthereumTxData::BridgePoolVext { .. } => kind == ProtocolTxType::BridgePoolVext,
        EthereumTxData::ValSetUpdateVext { .. } => kind == ProtocolTxType::ValSetUpdateVext,
        EthereumTxData::EthereumEvents => kind == ProtocolTxType::EthereumEvents,
        EthereumTxData::BridgePool => kind == ProtocolTxType::BridgePool,
        EthereumTxData::ValidatorSetUpdate => kind == ProtocolTxType::ValidatorSetUpdate,
    };
    if !matches_kind {
        return Err(Error::ProtocolTxError(ProtocolFailure::KindMismatch));
    }
    let (validator, subjects, height): (Address, Vec<VoteSubject>, u64) = match d {
        EthereumTxData::EthEventsVext { validator, block_height, events } => {
            let mut subjects: Vec<VoteSubject> = Vec::new();
            let mut i: usize = 0;
            while i < events.len()
                invariant
                    i <= events@.len(),
                    subjects@ == events@.take(i as int).map_values(|e: Digest| VoteSubject::EthEvent(e)),
                decreases events@.len() - i,
            {
                subjects.push(VoteSubject::EthEvent(events[i]));
                i = i + 1;
                assert(subjects@ =~= events@.take(i as int).map_values(|e: Digest| VoteSubject::EthEvent(e)));
            }
            assert(events@.take(events@.len() as int) =~= events@);
            (*validator, subjects, *block_height)
        },
        EthereumTxData::BridgePoolVext { validator, block_height, root, nonce } => {
            let subjects = vec![VoteSubject::BridgePoolRoot { root: *root, nonce: *nonce, height: *block_height }];
            assert(subjects@ =~= seq![VoteSubject::BridgePoolRoot { root: *root, nonce: *nonce, height: *block_height }]);
            (*validator, subjects, *block_height)
        },
        EthereumTxData::ValSetUpdateVext { validator, signing_epoch } => {
            let subjects = vec![VoteSubject::ValSetUpdate(*signing_epoch)];
            assert(subjects@ =~= seq![VoteSubject::ValSetUpdate(*signing_epoch)]);
            (*validator, subjects, state.last_block_height)
        },
        _ => {
            // the plain (non vote-extension) kinds take no action yet
            return Ok(Vec::new());
        },
    };
    assert(vext_votes(*d, state.last_block_height) == Some((validator, subjects@, height)));
    let stake = match find_stake(&state.validators, &validator) {
        Some(s) => s,
        None => {
            return Err(Error::ProtocolTxError(ProtocolFailure::UnknownValidator));
        },
    };
    let keys = apply_votes(&mut state.votes, &subjects, validator, height, stake);
    Ok(keys)
}

/// The voters on `subject` and the heights they voted at.
pub fn seen_by(votes: &Vec<Vote>, subject: &VoteSubject) -> (r: Vec<(Address, u64)>)
    ensures
        r@ == seen_by_of(votes@, *subject),
{
    let mut r: Vec<(Address, u64)> = Vec::new();
    let mut i: usize = 0;
    while i < votes.len()
        invariant
            i <= votes@.len(),
            r@ == seen_by_of(votes@.take(i as int), *subject),
        decreases votes@.len() - i,
    {
        proof {
            assert(votes@.take(i as int + 1).drop_last() =~= votes@.take(i as int));
        }
        if votes[i].subject == *subject {
            r.push((votes[i].validator, votes[i].height));
        }
        i = i + 1;
    }
    assert(votes@.take(votes@.len() as int) =~= votes@);
    r
}

proof fn lemma_power_monotone(votes: Seq<Vote>, subject: VoteSubject, i: int)
    requires
        0 <= i <= votes.len(),
    ensures
        voting_power_of(votes.take(i), subject) <= voting_power_of(votes, subject),
    decreases votes.len() - i,
{
    if i < votes.len() {
        lemma_power_monotone(votes, subject, i + 1);
        assert(votes.take(i + 1).drop_last() =~= votes.take(i));
    } else {
        assert(votes.take(i) =~= votes);
    }
}

/// The voting power behind `subject`; `None` where it exceeds an amount.
pub fn voting_power(votes: &Vec<Vote>, subject: &VoteSubject) -> (r: Option<Amount>)
    ensures
        r == (if voting_power_of(votes@, *subject) <= u128::MAX {
            Some(voting_power_of(votes@, *subject) as Amount)
        } else {
            None::<Amount>
        }),
{
    let mut total: Amount = 0;
    let mut i: usize = 0;
    while i < votes.len()
        invariant
            i <= votes@.len(),
            total == voting_power_of(votes@.take(i as int), *subject),
        decreases votes@.len() - i,
    {
        proof {
            assert(votes@.take(i as int + 1).drop_last() =~= votes@.take(i as int));
        }
        if votes[i].subject == *subject {
            match total.checked_add(votes[i].stake) {
                Some(t) => {
                    total = t;
                },
                None => {
                    proof {
                        lemma_power_monotone(votes@, *subject, i as int + 1);
                    }
                    return None;
                },
            }
        }
        i = i + 1;
    }
    assert(votes@.take(votes@.len() as int) =~= votes@);
    Some(total)
}

proof fn lemma_cast_vote_keeps(
    votes: Seq<Vote>,
    subject: VoteSubject,
    validator: Address,
    height: u64,
    stake: Amount,
    s: VoteSubject,
)
    ensures
        has_vote(cast_vote(votes, subject, validator, height, stake), subject, validator),
        has_vote(votes, s, validator) ==> has_vote(cast_vote(votes, subject, validator, height, stake), s, validator),
{
    let nv = cast_vote(votes, subject, validator, height, stake);
    if !has_vote(votes, subject, validator) {
        assert(nv[votes.len() as int].subject == subject);
    }
    if has_vote(votes, s, validator) {
        let i = choose|i: int| 0 <= i < votes.len() && votes[i].subject == s && votes[i].validator == validator;
        assert(nv[i] == votes[i]);
    }
}

proof fn lemma_cast_votes_voted(
    votes: Seq<Vote>,
    subjects: Seq<VoteSubject>,
    validator: Address,
    height: u64,
    stake: Amount,
)
    ensures
        forall|j: int|
            0 <= j < subjects.len() ==> has_vote(
                cast_votes(votes, subjects, validator, height, stake),
                #[trigger] subjects[j],
                validator,
            ),
    decreases subjects.len(),
{
    if subjects.len() > 0 {
        let prev = subjects.drop_last();
        lemma_cast_votes_voted(votes, prev, validator, height, stake);
        let before = cast_votes(votes, prev, validator, height, stake);
        assert forall|j: int| 0 <= j < subjects.len() implies has_vote(
            cast_votes(votes, subjects, validator, height, stake),
            #[trigger] subjects[j],
            validator,
        ) by {
            lemma_cast_vote_keeps(before, subjects.last(), validator, height, stake, subjects[j]);
            if j < subjects.len() - 1 {
                assert(prev[j] == subjects[j]);
            }
        }
    }
}

proof fn lemma_cast_votes_noop(
    votes: Seq<Vote>,
    subjects: Seq<VoteSubject>,
    validator: Address,
    height: u64,
    stake: Amount,
)
    requires
        forall|j: int| 0 <= j < subjects.len() ==> has_vote(votes, #[trigger] subjects[j], validator),
    ensures
        cast_votes(votes, subjects, validator, height, stake) == votes,
        cast_votes_keys(votes, subjects, validator, height, stake) == Seq::<Key>::empty(),
    decreases subjects.len(),
{
    if subjects.len() > 0 {
        let prev = subjects.drop_last();
        assert forall|j: int| 0 <= j < prev.len() implies has_vote(votes, #[trigger] prev[j], validator) by {
            assert(prev[j] == subjects[j]);
        }
        lemma_cast_votes_noop(votes, prev, validator, height, stake);
        assert(has_vote(votes, subjects[subjects.len() - 1], validator));
    }
}

/// Votes of two distinct validators on a subject both count: each adds
/// its stake to the subject's voting power and its name to the voters.
pub proof fn lemma_distinct_validators_both_count(
    votes: Seq<Vote>,
    subject: VoteSubject,
    a: Address,
    b: Address,
    height: u64,
    stake_a: Amount,
    stake_b: Amount,
)
    requires
        a != b,
        !has_vote(votes, subject, a),
        !has_vote(votes, subject, b),
    ensures
        ({
            let after = cast_vote(cast_vote(votes, subject, a, height, stake_a), subject, b, height, stake_b);
            &&& voting_power_of(after, subject) == voting_power_of(votes, subject) + stake_a + stake_b
            &&& seen_by_of(after, subject) == seen_by_of(votes, subject).push((a, height)).push((b, height))
        }),
{
    let once = cast_vote(votes, subject, a, height, stake_a);
    assert(once == votes.push(Vote { subject, validator: a, height, stake: stake_a }));
    assert(once.drop_last() =~= votes);
    assert(!has_vote(once, subject, b)) by {
        if has_vote(once, subject, b) {
            let i = choose|i: int| 0 <= i < once.len() && once[i].subject == subject && once[i].validator == b;
            assert(i < votes.len());
            assert(votes[i] == once[i]);
        }
    }
    let twice = cast_vote(once, subject, b, height, stake_b);
    assert(twice == once.push(Vote { subject, validator: b, height, stake: stake_b }));
    assert(twice.drop_last() =~= once);
    assert(twice.last().subject == subject && once.last().subject == subject);
    assert(voting_power_of(once, subject) == voting_power_of(votes, subject) + stake_a);
    assert(voting_power_of(twice, subject) == voting_power_of(once, subject) + stake_b);
    assert(seen_by_of(once, subject) == seen_by_of(votes, subject).push((a, height)));
    assert(seen_by_of(twice, subject) == seen_by_of(once, subject).push((b, height)));
}

/// Applying the same vote-extension protocol transaction twice leaves the
/// votes, and so every tally, as one application does: each validator
/// votes at most once on each subject.
pub proof fn lemma_protocol_idempotent(
    kind: ProtocolTxType,
    data: Option<EthereumTxData>,
    votes: Seq<Vote>,
    validators: Seq<(Address, Amount)>,
    last_block_height: u64,
)
    ensures
        protocol_spec(kind, data, votes, validators, last_block_height) matches Ok((once, _)) ==> {
            &&& protocol_spec(kind, data, once, validators, last_block_height) matches Ok((twice, keys))
            &&& twice == once
            &&& keys.len() == 0
            &&& forall|s: VoteSubject|
                #[trigger] voting_power_of(twice, s) == voting_power_of(once, s)
                    && seen_by_of(twice, s) == seen_by_of(once, s)
        },
{
    if let Some(d) = data {
        if data_matches(kind, d) {
            if let Some((validator, subjects, height)) = vext_votes(d, last_block_height) {
                if let Some(stake) = stake_of(validators, validator) {
                    lemma_cast_votes_voted(votes, subjects, validator, height, stake);
                    let once = cast_votes(votes, subjects, validator, height, stake);
                    lemma_cast_votes_noop(once, subjects, validator, height, stake);
                }
            }
        }
    }
}

} // verus!
