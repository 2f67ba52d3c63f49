use vstd::prelude::*;

use crate::errors::Error;
use crate::giveaway::{enter_transition, spec_enter_result, spec_pick_winner_result};
use crate::mutual_aid::{refund_transition, spec_donate_result, spec_refund_result};
use crate::state::{giveaway_index, lemma_giveaway_index, ContractState};
use crate::types::{AccountId, GiveawayStatus, HelpRequestStatus};

verus! {

/// No double entry: once an enter for `(participant, giveaway_id)` has
/// succeeded, a second enter for the same pair is rejected with
/// `AlreadyEntered` while entries are open. Every entry point leaves the
/// state untouched on an error, so the failed call also leaves
/// `participant_count` unchanged.
pub proof fn law_no_double_entry(
    s: ContractState,
    s1: ContractState,
    participant: AccountId,
    giveaway_id: u64,
    now1: u64,
    now2: u64,
)
    requires
        s.wf(),
        spec_enter_result(s, participant, giveaway_id, now1) is Ok,
        enter_transition(s, s1, participant, giveaway_id),
        now2 <= s.giveaways@[giveaway_index(s.giveaways@, giveaway_id)].end_time,
    ensures
        spec_enter_result(s1, participant, giveaway_id, now2) == Err::<u64, Error>(
            Error::AlreadyEntered,
        ),
{
    let k = giveaway_index(s.giveaways@, giveaway_id);
    let g = s.giveaways@[k];
    let g2 = s1.giveaways@[k];
    lemma_giveaway_index(s.giveaways@, giveaway_id);
    lemma_giveaway_index(s1.giveaways@, giveaway_id);
    assert(giveaway_index(s1.giveaways@, giveaway_id) == k) by {
        let k2 = giveaway_index(s1.giveaways@, giveaway_id);
        assert(s1.giveaways@[k] == g2 && g2.id == giveaway_id);
        if k2 != k && k2 >= 0 {
            assert(s1.giveaways@[k2] == s.giveaways@[k2]);
            assert(s.giveaways@[k2].id == giveaway_id);
        }
    }
    assert(g2.has_entered(participant)) by {
        assert(g2.participants@[g.participants@.len() as int] == participant);
    }
}

/// Timing gate for entries: with the giveaway present, active, the pool not
/// yet holding the participant, and no allocator at its limit, an enter
/// succeeds exactly when `now <= end_time`. In particular an entry at
/// `now == end_time` is accepted.
pub proof fn law_timing_gate_enter(
    s: ContractState,
    participant: AccountId,
    giveaway_id: u64,
    now: u64,
)
    requires
        s.wf(),
        !s.paused,
        giveaway_index(s.giveaways@, giveaway_id) >= 0,
        s.giveaways@[giveaway_index(s.giveaways@, giveaway_id)].status == GiveawayStatus::Active,
        !s.giveaways@[giveaway_index(s.giveaways@, giveaway_id)].has_entered(participant),
        s.id_counter < u64::MAX,
        s.giveaways@[giveaway_index(s.giveaways@, giveaway_id)].participant_count < u32::MAX,
    ensures
        spec_enter_result(s, participant, giveaway_id, now) is Ok <==> now <= s.giveaways@[
            giveaway_index(s.giveaways@, giveaway_id)
        ].end_time,
{
}

/// Timing gate for winner selection: with the giveaway present, active, and
/// its pool non-empty, the draw succeeds exactly when `now > end_time`. In
/// particular no winner can be drawn at `now == end_time`.
pub proof fn law_timing_gate_pick_winner(s: ContractState, giveaway_id: u64, now: u64, random: u64)
    requires
        s.wf(),
        giveaway_index(s.giveaways@, giveaway_id) >= 0,
        s.giveaways@[giveaway_index(s.giveaways@, giveaway_id)].status == GiveawayStatus::Active,
        s.giveaways@[giveaway_index(s.giveaways@, giveaway_id)].participant_count > 0,
    ensures
        spec_pick_winner_result(s, giveaway_id, now, random) is Ok <==> now > s.giveaways@[
            giveaway_index(s.giveaways@, giveaway_id)
        ].end_time,
{
}

/// Winner membership: a successful draw returns the entrant stored at dense
/// index `random % participant_count`, which lies in `[0, participant_count)`,
/// so the winner is one of the participants. Every residue of `random`
/// selects some index, so no index is structurally unreachable.
pub proof fn law_winner_membership(s: ContractState, giveaway_id: u64, now: u64, random: u64)
    requires
        s.wf(),
        spec_pick_winner_result(s, giveaway_id, now, random) is Ok,
    ensures
        ({
            let k = giveaway_index(s.giveaways@, giveaway_id);
            let g = s.giveaways@[k];
            let w = spec_pick_winner_result(s, giveaway_id, now, random)->Ok_0;
            &&& 0 <= random % (g.participant_count as u64) < g.participant_count
            &&& w == g.participants@[(random % (g.participant_count as u64)) as int]
            &&& g.participants@.contains(w)
        }),
{
    let k = giveaway_index(s.giveaways@, giveaway_id);
    let g = s.giveaways@[k];
    lemma_giveaway_index(s.giveaways@, giveaway_id);
    let idx = (random % (g.participant_count as u64)) as int;
    assert(g.participants@[idx] == g.participants@[idx]);
    assert(g.participants@.contains(g.participants@[idx]));
}

/// Overflow safety: a donation that would overflow the donor's cumulative
/// record or the request's `raised_amount` is rejected with
/// `ArithmeticOverflow`, before any transfer is attempted. Every entry
/// point leaves the state untouched on an error, so both values are
/// unchanged by the failed call.
pub proof fn law_overflow_safety(
    s: ContractState,
    donor: AccountId,
    request_id: u64,
    amount: i128,
)
    requires
        s.wf(),
        !s.paused,
        amount > 0,
        1 <= request_id <= s.requests@.len(),
        s.requests@[request_id - 1].status == HelpRequestStatus::Open,
        s.requests@[request_id - 1].donation_of(donor) + amount > i128::MAX || s.requests@[
            request_id - 1
        ].raised_amount + amount > i128::MAX,
    ensures
        spec_donate_result(s, donor, request_id, amount) == Err::<(), Error>(
            Error::ArithmeticOverflow,
        ),
{
}

/// Refund idempotence: once a refund for `(donor, request_id)` has
/// succeeded, the donor's stored record is exactly zero, and a second claim
/// is rejected with `InvalidAmount` — funds move at most once. Every entry
/// point leaves the state untouched on an error, so the second call
/// transfers nothing.
pub proof fn law_refund_idempotent(
    s: ContractState,
    s1: ContractState,
    donor: AccountId,
    request_id: u64,
)
    requires
        s.wf(),
        spec_refund_result(s, donor, request_id) is Ok,
        refund_transition(s, s1, donor, request_id),
    ensures
        spec_refund_result(s1, donor, request_id) == Err::<(), Error>(Error::InvalidAmount),
{
    let k = request_id - 1;
    assert(s1.requests@.len() == s.requests@.len());
    assert(s1.requests@[k].status == HelpRequestStatus::Cancelled);
    assert(s1.requests@[k].donation_of(donor) == 0);
}

/// Conservation of funds is stated as `ContractState::conserved`: for every
/// token, custody equals undistributed prizes plus unrefunded donations.
/// `ContractState::new` establishes it and every campaign entry point
/// carries `conserved() ==> conserved()` in its contract, so it holds after
/// any sequence of campaign operations. The admin escape hatch
/// `admin_withdraw` and direct custody funding deliberately bypass it.
pub proof fn law_conservation_initial(s: ContractState)
    requires
        s.giveaways@.len() == 0,
        s.requests@.len() == 0,
        forall|t: crate::types::TokenId| #[trigger] s.ledger.spec_custody(t) == 0,
    ensures
        s.conserved(),
{
}

} // verus!
