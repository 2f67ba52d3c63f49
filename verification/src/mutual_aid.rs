use vstd::prelude::*;

use crate::errors::Error;
use crate::state::{
    giveaways_owed, lemma_requests_owed_push, lemma_requests_owed_update, requests_owed,
    ContractState,
};
use crate::types::{
    donor_index, donor_total, lemma_donor_index, lemma_donor_push, lemma_donor_set,
    lemma_donor_total_push, lemma_donor_total_update, AccountId, DonorRecord, HelpRequest,
    HelpRequestStatus, TokenId,
};

verus! {

/// What `create_help_request` returns on the given state and arguments:
/// the new request's id, or the first failing check's error.
pub open spec fn spec_create_help_request_result(
    s: ContractState,
    creator: AccountId,
    token: TokenId,
    goal: i128,
) -> Result<u64, Error> {
    if s.paused {
        Err(Error::Paused)
    } else if goal <= 0 {
        Err(Error::InvalidAmount)
    } else if s.request_counter == u64::MAX {
        Err(Error::ArithmeticOverflow)
    } else {
        Ok((s.request_counter + 1) as u64)
    }
}

/// What `donate` returns on the given state and arguments.
pub open spec fn spec_donate_result(
    s: ContractState,
    donor: AccountId,
    request_id: u64,
    amount: i128,
) -> Result<(), Error> {
    if s.paused {
        Err(Error::Paused)
    } else if amount <= 0 {
        Err(Error::InvalidAmount)
    } else if request_id < 1 || request_id > s.requests@.len() {
        Err(Error::NotFound)
    } else {
        let r = s.requests@[request_id - 1];
        if r.status != HelpRequestStatus::Open {
            Err(Error::InvalidStatus)
        } else if r.donation_of(donor) + amount > i128::MAX {
            Err(Error::ArithmeticOverflow)
        } else if r.raised_amount + amount > i128::MAX {
            Err(Error::ArithmeticOverflow)
        } else if s.ledger.spec_balance(r.token, donor) < amount {
            Err(Error::TransferFailed)
        } else if s.ledger.spec_custody(r.token) + amount > i128::MAX {
            Err(Error::ArithmeticOverflow)
        } else {
            Ok(())
        }
    }
}

/// What `cancel_request` returns on the given state and arguments.
pub open spec fn spec_cancel_result(
    s: ContractState,
    creator: AccountId,
    request_id: u64,
) -> Result<(), Error> {
    if request_id < 1 || request_id > s.requests@.len() {
        Err(Error::NotFound)
    } else {
        let r = s.requests@[request_id - 1];
        if r.creator != creator {
            Err(Error::NotCreator)
        } else if r.status != HelpRequestStatus::Open {
            Err(Error::InvalidStatus)
        } else {
            Ok(())
        }
    }
}

/// What `claim_refund` returns on the given state and arguments.
pub open spec fn spec_refund_result(
    s: ContractState,
    donor: AccountId,
    request_id: u64,
) -> Result<(), Error> {
    if request_id < 1 || request_id > s.requests@.len() {
        Err(Error::NotFound)
    } else {
        let r = s.requests@[request_id - 1];
        if r.status != HelpRequestStatus::Cancelled {
            Err(Error::InvalidStatus)
        } else if r.donation_of(donor) <= 0 {
            Err(Error::InvalidAmount)
        } else if s.ledger.spec_custody(r.token) < r.donation_of(donor) {
            Err(Error::TransferFailed)
        } else if s.ledger.spec_balance(r.token, donor) + r.donation_of(donor) > i128::MAX {
            Err(Error::ArithmeticOverflow)
        } else {
            Ok(())
        }
    }
}

/// How a successful refund relates the old state to the new one: the
/// donor's stored record is exactly zero afterwards and the request's
/// status is unchanged.
pub open spec fn refund_transition(
    s: ContractState,
    s1: ContractState,
    donor: AccountId,
    request_id: u64,
) -> bool {
    let k = request_id - 1;
    let q2 = s1.requests@[k];
    &&& 1 <= request_id <= s.requests@.len()
    &&& s1.requests@ == s.requests@.update(k, q2)
    &&& q2.donation_of(donor) == 0
    &&& q2.status == s.requests@[k].status
}

/// Position of `donor`'s record among `v`.
fn find_donor(v: &Vec<DonorRecord>, donor: AccountId) -> (r: Option<usize>)
    ensures
        ({
            let i = donor_index(v@, donor);
            match r {
                Some(k) => k as int == i && k < v@.len(),
                None => i == -1,
            }
        }),
{
    proof {
        lemma_donor_index(v@, donor);
    }
    let n = v.len();
    let mut k: usize = 0;
    while k < n
        invariant
            n == v@.len(),
            0 <= k <= n,
            forall|j: int| 0 <= j < k ==> (#[trigger] v@[j]).donor != donor,
            donor_index(v@, donor) >= 0 ==> donor_index(v@, donor) >= k,
        decreases n - k,
    {
        proof {
            lemma_donor_index(v@, donor);
        }
        if v[k].donor == donor {
            return Some(k);
        }
        k = k + 1;
    }
    None
}

/// Marker type that groups the mutual-aid entry points.
pub struct MutualAidContract;

impl MutualAidContract {
    /// Open a help request with a positive funding goal. Allocates a fresh
    /// request id; nothing is transferred at creation.
    ///
    /// The caller has already been authenticated as `creator`.
    pub fn create_help_request(
        state: &mut ContractState,
        creator: AccountId,
        token: TokenId,
        goal: i128,
    ) -> (r: Result<u64, Error>)
        requires
            old(state).wf(),
        ensures
            final(state).wf(),
            old(state).conserved() ==> final(state).conserved(),
            r == spec_create_help_request_result(*old(state), creator, token, goal),
            r is Err ==> *final(state) == *old(state),
            r is Ok ==> ({
                let q = final(state).requests@.last();
                &&& final(state).requests@.len() == old(state).requests@.len() + 1
                &&& final(state).requests@.drop_last() == old(state).requests@
                &&& final(state).request_counter == old(state).request_counter + 1
                &&& q.id == old(state).request_counter + 1
                &&& q.creator == creator
                &&& q.token == token
                &&& q.goal == goal
                &&& q.raised_amount == 0
                &&& q.status == HelpRequestStatus::Open
                &&& q.donors@ == Seq::<DonorRecord>::empty()
            }),
            final(state).ledger == old(state).ledger,
            final(state).giveaways == old(state).giveaways,
            final(state).entries == old(state).entries,
            final(state).admin == old(state).admin,
            final(state).paused == old(state).paused,
            final(state).id_counter == old(state).id_counter,
    {
        if state.paused {
            return Err(Error::Paused);
        }
        if goal <= 0 {
            return Err(Error::InvalidAmount);
        }
        if state.request_counter == u64::MAX {
            return Err(Error::ArithmeticOverflow);
        }
        let id = state.request_counter + 1;
        state.request_counter = id;
        let q = HelpRequest {
            id,
            creator,
            token,
            goal,
            raised_amount: 0,
            status: HelpRequestStatus::Open,
            donors: Vec::new(),
        };
        state.requests.push(q);
        proof {
            let q2 = state.requests@.last();
            assert(state.requests@.drop_last() =~= old(state).requests@);
            if old(state).conserved() {
                assert forall|t: TokenId| #[trigger] state.ledger.spec_custody(t)
                    == giveaways_owed(state.giveaways@, t) + requests_owed(state.requests@, t) by {
                    lemma_requests_owed_push(old(state).requests@, q2, t);
                }
            }
        }
        Ok(id)
    }

    /// Donate `amount` to an open request: move the amount from the donor
    /// into custody, then add it to the donor's cumulative record and to
    /// `raised_amount` with checked arithmetic, flipping the request to
    /// `FullyFunded` once the goal is reached. The transfer is attempted
    /// only after every check has passed, so a failure never inflates the
    /// recorded donations.
    ///
    /// The caller has already been authenticated as `donor`.
    pub fn donate(
        state: &mut ContractState,
        donor: AccountId,
        request_id: u64,
        amount: i128,
    ) -> (r: Result<(), Error>)
        requires
            old(state).wf(),
        ensures
            final(state).wf(),
            old(state).conserved() ==> final(state).conserved(),
            r == spec_donate_result(*old(state), donor, request_id, amount),
            r is Err ==> *final(state) == *old(state),
            r is Ok ==> ({
                let k = request_id - 1;
                let q = old(state).requests@[k];
                let q2 = final(state).requests@[k];
                let l0 = old(state).ledger;
                let l1 = final(state).ledger;
                &&& final(state).requests@ == old(state).requests@.update(k, q2)
                &&& q2.raised_amount == q.raised_amount + amount
                &&& q2.status == (if q.raised_amount + amount >= q.goal {
                    HelpRequestStatus::FullyFunded
                } else {
                    HelpRequestStatus::Open
                })
                &&& q2.donation_of(donor) == q.donation_of(donor) + amount
                &&& forall|d2: AccountId|
                    d2 != donor ==> #[trigger] q2.donation_of(d2) == q.donation_of(d2)
                &&& q2.id == q.id
                &&& q2.creator == q.creator
                &&& q2.token == q.token
                &&& q2.goal == q.goal
                &&& l1.spec_balance(q.token, donor) == l0.spec_balance(q.token, donor) - amount
                &&& l1.spec_custody(q.token) == l0.spec_custody(q.token) + amount
                &&& forall|t2: TokenId, o2: AccountId|
                    !(t2 == q.token && o2 == donor) ==> #[trigger] l1.spec_balance(t2, o2)
                        == l0.spec_balance(t2, o2)
                &&& forall|t2: TokenId|
                    t2 != q.token ==> #[trigger] l1.spec_custody(t2) == l0.spec_custody(t2)
            }),
            final(state).giveaways == old(state).giveaways,
            final(state).entries == old(state).entries,
            final(state).admin == old(state).admin,
            final(state).paused == old(state).paused,
            final(state).id_counter == old(state).id_counter,
            final(state).request_counter == old(state).request_counter,
    {
        if state.paused {
            return Err(Error::Paused);
        }
        if amount <= 0 {
            return Err(Error::InvalidAmount);
        }
        if request_id < 1 || request_id > state.requests.len() as u64 {
            return Err(Error::NotFound);
        }
        let k = (request_id - 1) as usize;
        if state.requests[k].status != HelpRequestStatus::Open {
            return Err(Error::InvalidStatus);
        }
        let donor_slot = find_donor(&state.requests[k].donors, donor);
        let prev: i128 = match donor_slot {
            Some(d) => state.requests[k].donors[d].amount,
            None => 0,
        };
        let new_donation = match prev.checked_add(amount) {
            None => {
                return Err(Error::ArithmeticOverflow);
            },
            Some(x) => x,
        };
        let new_raised = match state.requests[k].raised_amount.checked_add(amount) {
            None => {
                return Err(Error::ArithmeticOverflow);
            },
            Some(x) => x,
        };
        let token = state.requests[k].token;
        match state.ledger.deposit(token, donor, amount) {
            Err(e) => Err(e),
            Ok(()) => {
                let rq = &mut state.requests[k];
                match donor_slot {
                    Some(d) => {
                        rq.donors[d] = DonorRecord { donor, amount: new_donation };
                        proof {
                            lemma_donor_index(old(state).requests@[k as int].donors@, donor);
                            lemma_donor_set(
                                old(state).requests@[k as int].donors@,
                                d as int,
                                DonorRecord { donor, amount: new_donation },
                            );
                            lemma_donor_total_update(
                                old(state).requests@[k as int].donors@,
                                d as int,
                                DonorRecord { donor, amount: new_donation },
                            );
                        }
                    },
                    None => {
                        rq.donors.push(DonorRecord { donor, amount });
                        proof {
                            lemma_donor_push(
                                old(state).requests@[k as int].donors@,
                                DonorRecord { donor, amount },
                            );
                            lemma_donor_total_push(
                                old(state).requests@[k as int].donors@,
                                DonorRecord { donor, amount },
                            );
                        }
                    },
                }
                rq.raised_amount = new_raised;
                if new_raised >= rq.goal {
                    rq.status = HelpRequestStatus::FullyFunded;
                }
                proof {
                    let q2 = state.requests@[k as int];
                    assert(q2.wf());
                    if old(state).conserved() {
                        assert forall|t: TokenId| #[trigger] state.ledger.spec_custody(t)
                            == giveaways_owed(state.giveaways@, t) + requests_owed(
                            state.requests@,
                            t,
                        ) by {
                            lemma_requests_owed_update(old(state).requests@, k as int, q2, t);
                        }
                    }
                }
                Ok(())
            },
        }
    }

    /// Cancel an open request. Only its creator may cancel, and only from
    /// `Open`: a fully funded request cannot be retroactively cancelled.
    /// Donors may claim refunds once the request is cancelled.
    ///
    /// The caller has already been authenticated as `creator`.
    pub fn cancel_request(state: &mut ContractState, creator: AccountId, request_id: u64) -> (r:
        Result<(), Error>)
        requires
            old(state).wf(),
        ensures
            final(state).wf(),
            old(state).conserved() ==> final(state).conserved(),
            r == spec_cancel_result(*old(state), creator, request_id),
            r is Err ==> *final(state) == *old(state),
            r is Ok ==> ({
                let k = request_id - 1;
                let q = old(state).requests@[k];
                let q2 = final(state).requests@[k];
                &&& final(state).requests@ == old(state).requests@.update(k, q2)
                &&& q2.status == HelpRequestStatus::Cancelled
                &&& q2.donors@ == q.donors@
                &&& q2.raised_amount == q.raised_amount
                &&& q2.id == q.id
                &&& q2.creator == q.creator
                &&& q2.token == q.token
                &&& q2.goal == q.goal
            }),
            final(state).ledger == old(state).ledger,
            final(state).giveaways == old(state).giveaways,
            final(state).entries == old(state).entries,
            final(state).admin == old(state).admin,
            final(state).paused == old(state).paused,
            final(state).id_counter == old(state).id_counter,
            final(state).request_counter == old(state).request_counter,
    {
        if request_id < 1 || request_id > state.requests.len() as u64 {
            return Err(Error::NotFound);
        }
        let k = (request_id - 1) as usize;
        if state.requests[k].creator != creator {
            return Err(Error::NotCreator);
        }
        if state.requests[k].status != HelpRequestStatus::Open {
            return Err(Error::InvalidStatus);
        }
        let rq = &mut state.requests[k];
        rq.status = HelpRequestStatus::Cancelled;
        proof {
            let q2 = state.requests@[k as int];
            assert(q2.wf());
            if old(state).conserved() {
                assert forall|t: TokenId| #[trigger] state.ledger.spec_custody(t)
                    == giveaways_owed(state.giveaways@, t) + requests_owed(state.requests@, t) by {
                    lemma_requests_owed_update(old(state).requests@, k as int, q2, t);
                }
            }
        }
        Ok(())
    }

    /// Refund the donor's whole cumulative donation from custody, then
    /// reset the stored record to exactly zero, as one atomic unit, so a
    /// repeated claim cannot drain twice. Only legal while the request is
    /// `Cancelled`; rejects a donor with nothing left to refund.
    ///
    /// The caller has already been authenticated as `donor`.
    pub fn claim_refund(state: &mut ContractState, donor: AccountId, request_id: u64) -> (r: Result<
        (),
        Error,
    >)
        requires
            old(state).wf(),
        ensures
            final(state).wf(),
            old(state).conserved() ==> final(state).conserved(),
            r == spec_refund_result(*old(state), donor, request_id),
            r is Err ==> *final(state) == *old(state),
            r is Ok ==> refund_transition(*old(state), *final(state), donor, request_id),
            r is Ok ==> ({
                let k = request_id - 1;
                let q = old(state).requests@[k];
                let q2 = final(state).requests@[k];
                let l0 = old(state).ledger;
                let l1 = final(state).ledger;
                &&& final(state).requests@ == old(state).requests@.update(k, q2)
                &&& q2.donation_of(donor) == 0
                &&& forall|d2: AccountId|
                    d2 != donor ==> #[trigger] q2.donation_of(d2) == q.donation_of(d2)
                &&& q2.status == q.status
                &&& q2.raised_amount == q.raised_amount
                &&& q2.id == q.id
                &&& q2.creator == q.creator
                &&& q2.token == q.token
                &&& q2.goal == q.goal
                &&& l1.spec_custody(q.token) == l0.spec_custody(q.token) - q.donation_of(donor)
                &&& l1.spec_balance(q.token, donor) == l0.spec_balance(q.token, donor)
                    + q.donation_of(donor)
                &&& forall|t2: TokenId, o2: AccountId|
                    !(t2 == q.token && o2 == donor) ==> #[trigger] l1.spec_balance(t2, o2)
                        == l0.spec_balance(t2, o2)
                &&& forall|t2: TokenId|
                    t2 != q.token ==> #[trigger] l1.spec_custody(t2) == l0.spec_custody(t2)
            }),
            final(state).giveaways == old(state).giveaways,
            final(state).entries == old(state).entries,
            final(state).admin == old(state).admin,
            final(state).paused == old(state).paused,
            final(state).id_counter == old(state).id_counter,
            final(state).request_counter == old(state).request_counter,
    {
        if request_id < 1 || request_id > state.requests.len() as u64 {
            return Err(Error::NotFound);
        }
        let k = (request_id - 1) as usize;
        if state.requests[k].status != HelpRequestStatus::Cancelled {
            return Err(Error::InvalidStatus);
        }
        let d = match find_donor(&state.requests[k].donors, donor) {
            None => {
                return Err(Error::InvalidAmount);
            },
            Some(d) => d,
        };
        let amount = state.requests[k].donors[d].amount;
        if amount <= 0 {
            return Err(Error::InvalidAmount);
        }
        proof {
            lemma_donor_index(old(state).requests@[k as int].donors@, donor);
        }
        let token = state.requests[k].token;
        match state.ledger.withdraw(token, donor, amount) {
            Err(e) => Err(e),
            Ok(()) => {
                let rq = &mut state.requests[k];
                rq.donors[d] = DonorRecord { donor, amount: 0 };
                proof {
                    lemma_donor_set(
                        old(state).requests@[k as int].donors@,
                        d as int,
                        DonorRecord { donor, amount: 0 },
                    );
                    lemma_donor_total_update(
                        old(state).requests@[k as int].donors@,
                        d as int,
                        DonorRecord { donor, amount: 0 },
                    );
                    let q2 = state.requests@[k as int];
                    assert(q2.wf());
                    if old(state).conserved() {
                        assert forall|t: TokenId| #[trigger] state.ledger.spec_custody(t)
                            == giveaways_owed(state.giveaways@, t) + requests_owed(
                            state.requests@,
                            t,
                        ) by {
                            lemma_requests_owed_update(old(state).requests@, k as int, q2, t);
                        }
                    }
                }
                Ok(())
            },
        }
    }

    /// The stored help-request record under `request_id`, if any.
    pub fn get_help_request(state: &ContractState, request_id: u64) -> (r: Option<&HelpRequest>)
        ensures
            ({
                if 1 <= request_id <= state.requests@.len() {
                    r == Some(&state.requests@[request_id - 1])
                } else {
                    r is None
                }
            }),
    {
        if request_id < 1 || request_id > state.requests.len() as u64 {
            return None;
        }
        Some(&state.requests[(request_id - 1) as usize])
    }

    /// The donor's cumulative unrefunded donation to the request; zero if
    /// the request does not exist or the donor never donated.
    pub fn get_donation(state: &ContractState, request_id: u64, donor: AccountId) -> (r: i128)
        ensures
            1 <= request_id <= state.requests@.len() ==> r as int == state.requests@[request_id
                - 1].donation_of(donor),
            !(1 <= request_id <= state.requests@.len()) ==> r == 0,
    {
        if request_id < 1 || request_id > state.requests.len() as u64 {
            return 0;
        }
        let k = (request_id - 1) as usize;
        proof {
            lemma_donor_index(state.requests@[k as int].donors@, donor);
        }
        match find_donor(&state.requests[k].donors, donor) {
            None => 0,
            Some(d) => state.requests[k].donors[d].amount,
        }
    }
}

} // verus!
