use vstd::prelude::*;

use crate::errors::Error;
use crate::state::{
    giveaway_index, giveaways_owed, lemma_giveaway_index, lemma_giveaways_owed_push,
    lemma_giveaways_owed_update, requests_owed, ContractState,
};
use crate::types::{AccountId, Entry, Giveaway, GiveawayStatus, SelectionMethod, TokenId};

verus! {

/// What `create_giveaway` returns on the given state and arguments: the new
/// giveaway's id, or the first failing check's error.
pub open spec fn spec_create_giveaway_result(
    s: ContractState,
    creator: AccountId,
    token: TokenId,
    amount: i128,
    duration: u64,
    now: u64,
) -> Result<u64, Error> {
    if s.paused {
        Err(Error::Paused)
    } else if s.id_counter == u64::MAX {
        Err(Error::ArithmeticOverflow)
    } else if now + duration > u64::MAX {
        Err(Error::ArithmeticOverflow)
    } else if amount < 0 {
        Err(Error::InvalidAmount)
    } else if s.ledger.spec_balance(token, creator) < amount {
        Err(Error::TransferFailed)
    } else if s.ledger.spec_custody(token) + amount > i128::MAX {
        Err(Error::ArithmeticOverflow)
    } else {
        Ok((s.id_counter + 1) as u64)
    }
}

/// What `enter` returns on the given state and arguments: the id of the new
/// entry record, or the first failing check's error.
pub open spec fn spec_enter_result(
    s: ContractState,
    participant: AccountId,
    giveaway_id: u64,
    now: u64,
) -> Result<u64, Error> {
    if s.paused {
        Err(Error::Paused)
    } else if giveaway_index(s.giveaways@, giveaway_id) == -1 {
        Err(Error::NotFound)
    } else {
        let g = s.giveaways@[giveaway_index(s.giveaways@, giveaway_id)];
        if g.status != GiveawayStatus::Active {
            Err(Error::InvalidStatus)
        } else if now > g.end_time {
            Err(Error::AlreadyEnded)
        } else if g.has_entered(participant) {
            Err(Error::AlreadyEntered)
        } else if s.id_counter == u64::MAX {
            Err(Error::ArithmeticOverflow)
        } else if g.participant_count == u32::MAX {
            Err(Error::ArithmeticOverflow)
        } else {
            Ok((s.id_counter + 1) as u64)
        }
    }
}

/// How a successful enter relates the old state to the new one: the
/// giveaway's dense index gains `participant` at its tail, its count grows
/// by one, and nothing else about the record changes.
pub open spec fn enter_transition(
    s: ContractState,
    s1: ContractState,
    participant: AccountId,
    giveaway_id: u64,
) -> bool {
    let k = giveaway_index(s.giveaways@, giveaway_id);
    let g = s.giveaways@[k];
    let g2 = s1.giveaways@[k];
    &&& k >= 0
    &&& s1.giveaways@ == s.giveaways@.update(k, g2)
    &&& g2.participants@ == g.participants@.push(participant)
    &&& g2.participant_count == g.participant_count + 1
    &&& g2.id == g.id
    &&& g2.status == g.status
    &&& g2.end_time == g.end_time
    &&& s1.paused == s.paused
}

/// Whether `x` is one of the accounts in `v`.
fn contains_account(v: &Vec<AccountId>, x: AccountId) -> (r: bool)
    ensures
        r == v@.contains(x),
{
    let n = v.len();
    let mut k: usize = 0;
    while k < n
        invariant
            n == v@.len(),
            0 <= k <= n,
            forall|j: int| 0 <= j < k ==> v@[j] != x,
        decreases n - k,
    {
        if v[k] == x {
            return true;
        }
        k = k + 1;
    }
    false
}

/// Marker type that groups the giveaway entry points.
pub struct GiveawayContract;

impl GiveawayContract {
    /// Create a giveaway: move the prize from the creator into custody
    /// (fail-closed: no record is created if the transfer fails), allocate
    /// a fresh id, and store the new record as `Active` with its deadline
    /// `duration` seconds past `now`.
    ///
    /// The caller has already been authenticated as `creator`.
    pub fn create_giveaway(
        state: &mut ContractState,
        creator: AccountId,
        token: TokenId,
        amount: i128,
        title: String,
        description: String,
        category: String,
        selection_method: SelectionMethod,
        winner_count: u32,
        duration: u64,
        now: u64,
    ) -> (r: Result<u64, Error>)
        requires
            old(state).wf(),
        ensures
            final(state).wf(),
            old(state).conserved() ==> final(state).conserved(),
            r == spec_create_giveaway_result(*old(state), creator, token, amount, duration, now),
            r is Err ==> *final(state) == *old(state),
            r is Ok ==> ({
                let g = final(state).giveaways@.last();
                &&& final(state).giveaways@.len() == old(state).giveaways@.len() + 1
                &&& final(state).giveaways@.drop_last() == old(state).giveaways@
                &&& g.id == old(state).id_counter + 1
                &&& g.creator == creator
                &&& g.token == token
                &&& g.amount == amount
                &&& g.title == title
                &&& g.description == description
                &&& g.category == category
                &&& g.selection_method == selection_method
                &&& g.winner_count == winner_count
                &&& g.participant_count == 0
                &&& g.participants@ == Seq::<AccountId>::empty()
                &&& g.end_time == now + duration
                &&& g.created_at == now
                &&& g.status == GiveawayStatus::Active
                &&& g.winner is None
            }),
            r is Ok ==> final(state).id_counter == old(state).id_counter + 1,
            r is Ok ==> final(state).ledger.spec_balance(token, creator) == old(
                state,
            ).ledger.spec_balance(token, creator) - amount,
            r is Ok ==> final(state).ledger.spec_custody(token) == old(state).ledger.spec_custody(
                token,
            ) + amount,
            r is Ok ==> forall|t2: TokenId, o2: AccountId|
                !(t2 == token && o2 == creator) ==> #[trigger] final(state).ledger.spec_balance(
                    t2,
                    o2,
                ) == old(state).ledger.spec_balance(t2, o2),
            r is Ok ==> forall|t2: TokenId|
                t2 != token ==> #[trigger] final(state).ledger.spec_custody(t2) == old(
                    state,
                ).ledger.spec_custody(t2),
            final(state).entries == old(state).entries,
            final(state).requests == old(state).requests,
            final(state).admin == old(state).admin,
            final(state).paused == old(state).paused,
            final(state).request_counter == old(state).request_counter,
    {
        if state.paused {
            return Err(Error::Paused);
        }
        if state.id_counter == u64::MAX {
            return Err(Error::ArithmeticOverflow);
        }
        let end_time = match now.checked_add(duration) {
            None => {
                return Err(Error::ArithmeticOverflow);
            },
            Some(e) => e,
        };
        match state.ledger.deposit(token, creator, amount) {
            Err(e) => Err(e),
            Ok(()) => {
                let id = state.id_counter + 1;
                state.id_counter = id;
                let g = Giveaway {
                    id,
                    creator,
                    token,
                    amount,
                    title,
                    description,
                    category,
                    selection_method,
                    winner_count,
                    participant_count: 0,
                    end_time,
                    created_at: now,
                    status: GiveawayStatus::Active,
                    winner: None,
                    participants: Vec::new(),
                };
                state.giveaways.push(g);
                proof {
                    let g2 = state.giveaways@.last();
                    assert(state.giveaways@.drop_last() =~= old(state).giveaways@);
                    if old(state).conserved() {
                        assert forall|t: TokenId| #[trigger] state.ledger.spec_custody(t)
                            == giveaways_owed(state.giveaways@, t) + requests_owed(
                            state.requests@,
                            t,
                        ) by {
                            lemma_giveaways_owed_push(old(state).giveaways@, g2, t);
                        }
                    }
                }
                Ok(id)
            },
        }
    }

    /// Register `participant` for the giveaway: record an Entry, append the
    /// participant at the next dense index, and increment the participant
    /// count, as one atomic unit. Rejects late, duplicate, and paused-time
    /// entries.
    ///
    /// The caller has already been authenticated as `participant`.
    pub fn add_participant(
        state: &mut ContractState,
        giveaway_id: u64,
        participant: AccountId,
        content: String,
        now: u64,
    ) -> (r: Result<u64, Error>)
        requires
            old(state).wf(),
        ensures
            final(state).wf(),
            old(state).conserved() ==> final(state).conserved(),
            r == spec_enter_result(*old(state), participant, giveaway_id, now),
            r is Err ==> *final(state) == *old(state),
            r is Ok ==> enter_transition(*old(state), *final(state), participant, giveaway_id),
            r is Ok ==> ({
                let k = giveaway_index(old(state).giveaways@, giveaway_id);
                let g = old(state).giveaways@[k];
                let g2 = final(state).giveaways@[k];
                &&& final(state).giveaways@ == old(state).giveaways@.update(k, g2)
                &&& g2.participants@ == g.participants@.push(participant)
                &&& g2.participant_count == g.participant_count + 1
                &&& g2.id == g.id
                &&& g2.creator == g.creator
                &&& g2.token == g.token
                &&& g2.amount == g.amount
                &&& g2.title == g.title
                &&& g2.description == g.description
                &&& g2.category == g.category
                &&& g2.selection_method == g.selection_method
                &&& g2.winner_count == g.winner_count
                &&& g2.end_time == g.end_time
                &&& g2.created_at == g.created_at
                &&& g2.status == g.status
                &&& g2.winner == g.winner
            }),
            r is Ok ==> ({
                let e = final(state).entries@.last();
                &&& final(state).id_counter == old(state).id_counter + 1
                &&& final(state).entries@.len() == old(state).entries@.len() + 1
                &&& final(state).entries@.drop_last() == old(state).entries@
                &&& e.id == old(state).id_counter + 1
                &&& e.giveaway_id == giveaway_id
                &&& e.participant == participant
                &&& e.entry_time == now
                &&& e.content == content
                &&& !e.is_winner
            }),
            final(state).ledger == old(state).ledger,
            final(state).requests == old(state).requests,
            final(state).admin == old(state).admin,
            final(state).paused == old(state).paused,
            final(state).request_counter == old(state).request_counter,
    {
        if state.paused {
            return Err(Error::Paused);
        }
        let k = match state.find_giveaway(giveaway_id) {
            None => {
                return Err(Error::NotFound);
            },
            Some(k) => k,
        };
        if state.giveaways[k].status != GiveawayStatus::Active {
            return Err(Error::InvalidStatus);
        }
        if now > state.giveaways[k].end_time {
            return Err(Error::AlreadyEnded);
        }
        if contains_account(&state.giveaways[k].participants, participant) {
            return Err(Error::AlreadyEntered);
        }
        if state.id_counter == u64::MAX {
            return Err(Error::ArithmeticOverflow);
        }
        if state.giveaways[k].participant_count == u32::MAX {
            return Err(Error::ArithmeticOverflow);
        }
        let id = state.id_counter + 1;
        state.id_counter = id;
        state.entries.push(
            Entry {
                id,
                giveaway_id,
                participant,
                entry_time: now,
                content,
                is_winner: false,
            },
        );
        let g = &mut state.giveaways[k];
        g.participants.push(participant);
        g.participant_count = g.participant_count + 1;
        proof {
            let gs2 = state.giveaways@;
            let g2 = gs2[k as int];
            assert(state.entries@.drop_last() =~= old(state).entries@);
            assert(g2.wf());
            if old(state).conserved() {
                assert forall|t: TokenId| #[trigger] state.ledger.spec_custody(t)
                    == giveaways_owed(state.giveaways@, t) + requests_owed(state.requests@, t) by {
                    lemma_giveaways_owed_update(old(state).giveaways@, k as int, g2, t);
                }
            }
        }
        Ok(id)
    }

}

/// What `pick_winner` returns on the given state, time, and entropy draw:
/// the winner's address, or the first failing check's error.
pub open spec fn spec_pick_winner_result(
    s: ContractState,
    giveaway_id: u64,
    now: u64,
    random: u64,
) -> Result<AccountId, Error> {
    if giveaway_index(s.giveaways@, giveaway_id) == -1 {
        Err(Error::NotFound)
    } else {
        let g = s.giveaways@[giveaway_index(s.giveaways@, giveaway_id)];
        if g.status != GiveawayStatus::Active {
            Err(Error::InvalidStatus)
        } else if now <= g.end_time {
            Err(Error::StillActive)
        } else if g.participant_count == 0 {
            Err(Error::NoParticipants)
        } else {
            Ok(g.participants@[(random % (g.participant_count as u64)) as int])
        }
    }
}

/// What prize distribution returns on the given state: `Ok` once the full
/// prize can move from custody to the recorded winner, or the first failing
/// check's error.
pub open spec fn spec_distribute_result(s: ContractState, giveaway_id: u64) -> Result<(), Error> {
    if giveaway_index(s.giveaways@, giveaway_id) == -1 {
        Err(Error::NotFound)
    } else {
        let g = s.giveaways@[giveaway_index(s.giveaways@, giveaway_id)];
        if g.status != GiveawayStatus::Claimable {
            Err(Error::InvalidStatus)
        } else {
            match g.winner {
                None => Err(Error::InvalidStatus),
                Some(w) => {
                    if g.amount < 0 {
                        Err(Error::InvalidAmount)
                    } else if s.ledger.spec_custody(g.token) < g.amount {
                        Err(Error::TransferFailed)
                    } else if s.ledger.spec_balance(g.token, w) + g.amount > i128::MAX {
                        Err(Error::ArithmeticOverflow)
                    } else {
                        Ok(())
                    }
                },
            }
        }
    }
}

impl GiveawayContract {
    /// Draw the winner of an expired giveaway: `random` is one uniform
    /// 64-bit draw from the entropy source, and the winner is the entrant
    /// at dense index `random % participant_count`. Sets the winner, moves
    /// the giveaway to `Claimable`, and returns the winner's address.
    /// A second call is rejected (`InvalidStatus`), never re-drawn.
    ///
    /// Callable by anyone: the outcome is determined by the entropy draw,
    /// not by the caller's identity.
    pub fn pick_winner(state: &mut ContractState, giveaway_id: u64, now: u64, random: u64) -> (r:
        Result<AccountId, Error>)
        requires
            old(state).wf(),
        ensures
            final(state).wf(),
            old(state).conserved() ==> final(state).conserved(),
            r == spec_pick_winner_result(*old(state), giveaway_id, now, random),
            r is Err ==> *final(state) == *old(state),
            r matches Ok(w) ==> ({
                let k = giveaway_index(old(state).giveaways@, giveaway_id);
                let g = old(state).giveaways@[k];
                let g2 = final(state).giveaways@[k];
                &&& final(state).giveaways@ == old(state).giveaways@.update(k, g2)
                &&& g2.winner == Some(w)
                &&& g2.status == GiveawayStatus::Claimable
                &&& g2.participants@ == g.participants@
                &&& g2.participant_count == g.participant_count
                &&& g2.id == g.id
                &&& g2.creator == g.creator
                &&& g2.token == g.token
                &&& g2.amount == g.amount
                &&& g2.title == g.title
                &&& g2.description == g.description
                &&& g2.category == g.category
                &&& g2.selection_method == g.selection_method
                &&& g2.winner_count == g.winner_count
                &&& g2.end_time == g.end_time
                &&& g2.created_at == g.created_at
            }),
            final(state).ledger == old(state).ledger,
            final(state).entries == old(state).entries,
            final(state).requests == old(state).requests,
            final(state).admin == old(state).admin,
            final(state).paused == old(state).paused,
            final(state).id_counter == old(state).id_counter,
            final(state).request_counter == old(state).request_counter,
    {
        let k = match state.find_giveaway(giveaway_id) {
            None => {
                return Err(Error::NotFound);
            },
            Some(k) => k,
        };
        if state.giveaways[k].status != GiveawayStatus::Active {
            return Err(Error::InvalidStatus);
        }
        if now <= state.giveaways[k].end_time {
            return Err(Error::StillActive);
        }
        let count = state.giveaways[k].participant_count;
        if count == 0 {
            return Err(Error::NoParticipants);
        }
        let winner_index = (random % (count as u64)) as usize;
        assert(winner_index < state.giveaways@[k as int].participants@.len());
        let winner = state.giveaways[k].participants[winner_index];
        let g = &mut state.giveaways[k];
        g.winner = Some(winner);
        g.status = GiveawayStatus::Claimable;
        proof {
            let g2 = state.giveaways@[k as int];
            assert(g2.wf());
            if old(state).conserved() {
                assert forall|t: TokenId| #[trigger] state.ledger.spec_custody(t)
                    == giveaways_owed(state.giveaways@, t) + requests_owed(state.requests@, t) by {
                    lemma_giveaways_owed_update(old(state).giveaways@, k as int, g2, t);
                }
            }
        }
        Ok(winner)
    }

    /// Pay the full prize from custody to the recorded winner and close the
    /// giveaway as `Completed`. Push-style: anyone may trigger it once the
    /// winner is recorded; a second call is rejected.
    pub fn distribute_prize(state: &mut ContractState, giveaway_id: u64) -> (r: Result<(), Error>)
        requires
            old(state).wf(),
        ensures
            final(state).wf(),
            old(state).conserved() ==> final(state).conserved(),
            r == spec_distribute_result(*old(state), giveaway_id),
            r is Err ==> *final(state) == *old(state),
            r is Ok ==> ({
                let k = giveaway_index(old(state).giveaways@, giveaway_id);
                let g = old(state).giveaways@[k];
                let g2 = final(state).giveaways@[k];
                let w = g.winner->0;
                let l0 = old(state).ledger;
                let l1 = final(state).ledger;
                &&& final(state).giveaways@ == old(state).giveaways@.update(k, g2)
                &&& g2.status == GiveawayStatus::Completed
                &&& g2.winner == g.winner
                &&& g2.participants@ == g.participants@
                &&& g2.participant_count == g.participant_count
                &&& g2.id == g.id
                &&& g2.creator == g.creator
                &&& g2.token == g.token
                &&& g2.amount == g.amount
                &&& l1.spec_custody(g.token) == l0.spec_custody(g.token) - g.amount
                &&& l1.spec_balance(g.token, w) == l0.spec_balance(g.token, w) + g.amount
                &&& forall|t2: TokenId, o2: AccountId|
                    !(t2 == g.token && o2 == w) ==> #[trigger] l1.spec_balance(t2, o2)
                        == l0.spec_balance(t2, o2)
                &&& forall|t2: TokenId|
                    t2 != g.token ==> #[trigger] l1.spec_custody(t2) == l0.spec_custody(t2)
            }),
            final(state).entries == old(state).entries,
            final(state).requests == old(state).requests,
            final(state).admin == old(state).admin,
            final(state).paused == old(state).paused,
            final(state).id_counter == old(state).id_counter,
            final(state).request_counter == old(state).request_counter,
    {
        let k = match state.find_giveaway(giveaway_id) {
            None => {
                return Err(Error::NotFound);
            },
            Some(k) => k,
        };
        if state.giveaways[k].status != GiveawayStatus::Claimable {
            return Err(Error::InvalidStatus);
        }
        let winner = match state.giveaways[k].winner {
            None => {
                return Err(Error::InvalidStatus);
            },
            Some(w) => w,
        };
        let token = state.giveaways[k].token;
        let amount = state.giveaways[k].amount;
        match state.ledger.withdraw(token, winner, amount) {
            Err(e) => Err(e),
            Ok(()) => {
                let g = &mut state.giveaways[k];
                g.status = GiveawayStatus::Completed;
                proof {
                    let g2 = state.giveaways@[k as int];
                    assert(g2.wf());
                    if old(state).conserved() {
                        assert forall|t: TokenId| #[trigger] state.ledger.spec_custody(t)
                            == giveaways_owed(state.giveaways@, t) + requests_owed(
                            state.requests@,
                            t,
                        ) by {
                            lemma_giveaways_owed_update(old(state).giveaways@, k as int, g2, t);
                        }
                    }
                }
                Ok(())
            },
        }
    }

    /// Self-service prize claim: like `distribute_prize`, but the caller
    /// must be the recorded winner (`NotAuthorized` otherwise). Returns
    /// `true` on success.
    ///
    /// The caller has already been authenticated as `claimer`.
    pub fn claim_prize(state: &mut ContractState, giveaway_id: u64, claimer: AccountId) -> (r:
        Result<bool, Error>)
        requires
            old(state).wf(),
        ensures
            final(state).wf(),
            old(state).conserved() ==> final(state).conserved(),
            r == ({
                let k = giveaway_index(old(state).giveaways@, giveaway_id);
                if k == -1 {
                    Err::<bool, Error>(Error::NotFound)
                } else if old(state).giveaways@[k].status != GiveawayStatus::Claimable {
                    Err(Error::InvalidStatus)
                } else if old(state).giveaways@[k].winner != Some(claimer) {
                    Err(Error::NotAuthorized)
                } else {
                    match spec_distribute_result(*old(state), giveaway_id) {
                        Ok(_) => Ok(true),
                        Err(e) => Err(e),
                    }
                }
            }),
            r is Err ==> *final(state) == *old(state),
            r is Ok ==> ({
                let k = giveaway_index(old(state).giveaways@, giveaway_id);
                let g = old(state).giveaways@[k];
                let g2 = final(state).giveaways@[k];
                &&& final(state).giveaways@ == old(state).giveaways@.update(k, g2)
                &&& g2.status == GiveawayStatus::Completed
                &&& g2.winner == Some(claimer)
                &&& g2.participants@ == g.participants@
                &&& g2.id == g.id
                &&& g2.token == g.token
                &&& g2.amount == g.amount
                &&& final(state).ledger.spec_custody(g.token) == old(state).ledger.spec_custody(
                    g.token,
                ) - g.amount
                &&& final(state).ledger.spec_balance(g.token, claimer) == old(
                    state,
                ).ledger.spec_balance(g.token, claimer) + g.amount
            }),
            final(state).entries == old(state).entries,
            final(state).requests == old(state).requests,
            final(state).admin == old(state).admin,
            final(state).paused == old(state).paused,
            final(state).id_counter == old(state).id_counter,
            final(state).request_counter == old(state).request_counter,
    {
        let k = match state.find_giveaway(giveaway_id) {
            None => {
                return Err(Error::NotFound);
            },
            Some(k) => k,
        };
        if state.giveaways[k].status != GiveawayStatus::Claimable {
            return Err(Error::InvalidStatus);
        }
        let is_winner = match state.giveaways[k].winner {
            None => false,
            Some(w) => w == claimer,
        };
        if !is_winner {
            return Err(Error::NotAuthorized);
        }
        match Self::distribute_prize(state, giveaway_id) {
            Ok(()) => Ok(true),
            Err(e) => Err(e),
        }
    }

    /// The stored giveaway record under `giveaway_id`, if any.
    pub fn get_giveaway(state: &ContractState, giveaway_id: u64) -> (r: Option<&Giveaway>)
        ensures
            ({
                let k = giveaway_index(state.giveaways@, giveaway_id);
                match r {
                    Some(g) => k >= 0 && *g == state.giveaways@[k],
                    None => k == -1,
                }
            }),
    {
        match state.find_giveaway(giveaway_id) {
            None => None,
            Some(k) => Some(&state.giveaways[k]),
        }
    }

    /// The participant stored at dense index `index` of the giveaway, if
    /// the giveaway exists and the index is within its pool.
    pub fn get_participant_at_index(state: &ContractState, giveaway_id: u64, index: u32) -> (r:
        Option<AccountId>)
        requires
            state.wf(),
        ensures
            ({
                let k = giveaway_index(state.giveaways@, giveaway_id);
                if k >= 0 && (index as nat) < state.giveaways@[k].participants@.len() {
                    r == Some(state.giveaways@[k].participants@[index as int])
                } else {
                    r is None
                }
            }),
    {
        match state.find_giveaway(giveaway_id) {
            None => None,
            Some(k) => {
                if index < state.giveaways[k].participant_count {
                    Some(state.giveaways[k].participants[index as usize])
                } else {
                    None
                }
            },
        }
    }
}

/// Register `user` for the giveaway with an empty entry note: the same
/// transition as `add_participant`, with only the entry id not reported
/// back.
pub fn enter_giveaway(
    state: &mut ContractState,
    user: AccountId,
    giveaway_id: u64,
    now: u64,
) -> (r: Result<(), Error>)
    requires
        old(state).wf(),
    ensures
        final(state).wf(),
        old(state).conserved() ==> final(state).conserved(),
        r == match spec_enter_result(*old(state), user, giveaway_id, now) {
            Ok(_) => Ok::<(), Error>(()),
            Err(e) => Err(e),
        },
        r is Err ==> *final(state) == *old(state),
        r is Ok ==> enter_transition(*old(state), *final(state), user, giveaway_id),
        r is Ok ==> ({
            let k = giveaway_index(old(state).giveaways@, giveaway_id);
            let g = old(state).giveaways@[k];
            let g2 = final(state).giveaways@[k];
            &&& final(state).giveaways@ == old(state).giveaways@.update(k, g2)
            &&& g2.participants@ == g.participants@.push(user)
            &&& g2.participant_count == g.participant_count + 1
            &&& g2.status == g.status
            &&& g2.end_time == g.end_time
            &&& g2.token == g.token
            &&& g2.amount == g.amount
            &&& g2.winner == g.winner
        }),
        final(state).ledger == old(state).ledger,
        final(state).requests == old(state).requests,
        final(state).admin == old(state).admin,
        final(state).paused == old(state).paused,
        final(state).request_counter == old(state).request_counter,
{
    match GiveawayContract::add_participant(state, giveaway_id, user, String::new(), now) {
        Ok(_) => Ok(()),
        Err(e) => Err(e),
    }
}

} // verus!
