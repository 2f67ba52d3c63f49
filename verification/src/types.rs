use vstd::prelude::*;

verus! {

/// An account, named by the integer form of its address.
pub type AccountId = u64;

/// A fungible token, named by the integer form of its contract address.
pub type TokenId = u64;

#[derive(Clone, Copy, Debug, PartialEq, Eq, Structural)]
pub enum GiveawayStatus {
    /// Entries are open until the deadline passes.
    Active,
    /// A winner has been drawn; the prize awaits distribution.
    Claimable,
    /// The prize has been paid out.
    Completed,
    /// The giveaway was cancelled before completion.
    Cancelled,
}

#[derive(Clone, Copy, Debug, PartialEq, Eq, Structural)]
pub enum SelectionMethod {
    Random,
    FirstCome,
    Manual,
}

#[derive(Clone, Copy, Debug, PartialEq, Eq, Structural)]
pub enum HelpRequestStatus {
    /// Accepting donations until the goal is reached.
    Open,
    /// The goal has been met; no further donations are accepted.
    FullyFunded,
    /// Cancelled by the creator; donors may claim refunds.
    Cancelled,
    /// Closed for any other reason.
    Closed,
}

/// A giveaway campaign: a deposited prize, a deadline, and a dense pool of
/// participants from which one winner is drawn after expiry.
pub struct Giveaway {
    pub id: u64,
    pub creator: AccountId,
    pub token: TokenId,
    /// The prize, deposited into custody at creation.
    pub amount: i128,
    pub title: String,
    pub description: String,
    pub category: String,
    pub selection_method: SelectionMethod,
    pub winner_count: u32,
    /// Number of successful entries; always equals `participants.len()`.
    pub participant_count: u32,
    /// Ledger timestamp after which entries close and a winner may be drawn.
    pub end_time: u64,
    pub created_at: u64,
    pub status: GiveawayStatus,
    /// Set exactly once, during winner selection.
    pub winner: Option<AccountId>,
    /// The dense participant index: position `i` holds the `i`-th entrant.
    pub participants: Vec<AccountId>,
}

impl Giveaway {
    pub open spec fn wf(self) -> bool {
        &&& self.participants@.len() == self.participant_count as nat
        &&& forall|i: int, j: int|
            0 <= i < j < self.participants@.len() ==> self.participants@[i] != self.participants@[j]
        &&& self.amount >= 0
        &&& ((self.status == GiveawayStatus::Claimable || self.status == GiveawayStatus::Completed)
            <==> self.winner is Some)
    }

    /// The prize still owed from custody: reserved from creation until the
    /// prize is distributed.
    pub open spec fn owed(self) -> int {
        if self.status == GiveawayStatus::Active || self.status == GiveawayStatus::Claimable {
            self.amount as int
        } else {
            0
        }
    }

    pub open spec fn has_entered(self, participant: AccountId) -> bool {
        self.participants@.contains(participant)
    }
}

/// One participant's registration record for one giveaway.
pub struct Entry {
    pub id: u64,
    pub giveaway_id: u64,
    pub participant: AccountId,
    pub entry_time: u64,
    pub content: String,
    pub is_winner: bool,
}

/// A donor's cumulative donation to one help request; reset to zero when the
/// donor claims a refund.
#[derive(Clone, Copy, Debug, PartialEq, Eq, Structural)]
pub struct DonorRecord {
    pub donor: AccountId,
    pub amount: i128,
}

/// Sum of the cumulative donor records, i.e. the donations not yet refunded.
pub open spec fn donor_total(ds: Seq<DonorRecord>) -> int
    decreases ds.len(),
{
    if ds.len() == 0 {
        0
    } else {
        donor_total(ds.drop_last()) + ds.last().amount
    }
}

/// Index of the record of `donor` in `ds`, or -1 if the donor has none.
pub open spec fn donor_index(ds: Seq<DonorRecord>, donor: AccountId) -> int
    decreases ds.len(),
{
    if ds.len() == 0 {
        -1
    } else if ds[0].donor == donor {
        0
    } else if donor_index(ds.drop_first(), donor) < 0 {
        -1
    } else {
        1 + donor_index(ds.drop_first(), donor)
    }
}

pub proof fn lemma_donor_index(ds: Seq<DonorRecord>, donor: AccountId)
    ensures
        ({
            let r = donor_index(ds, donor);
            &&& -1 <= r < ds.len()
            &&& r >= 0 ==> ds[r].donor == donor && forall|j: int|
                0 <= j < r ==> (#[trigger] ds[j]).donor != donor
            &&& r == -1 ==> forall|j: int| 0 <= j < ds.len() ==> (#[trigger] ds[j]).donor != donor
        }),
    decreases ds.len(),
{
    if ds.len() > 0 && ds[0].donor != donor {
        lemma_donor_index(ds.drop_first(), donor);
        assert forall|j: int| 1 <= j < ds.len() implies (#[trigger] ds[j]).donor
            == ds.drop_first()[j - 1].donor by {
            assert(ds.drop_first()[j - 1] == ds[j]);
        }
    }
}

/// No two records belong to the same donor.
pub open spec fn donors_distinct(ds: Seq<DonorRecord>) -> bool {
    forall|i: int, j: int|
        0 <= i < j < ds.len() ==> (#[trigger] ds[i]).donor != (#[trigger] ds[j]).donor
}

/// The cumulative unrefunded donation of `donor` in `ds`, zero if none.
pub open spec fn donation_in(ds: Seq<DonorRecord>, donor: AccountId) -> int {
    let i = donor_index(ds, donor);
    if i >= 0 {
        ds[i].amount as int
    } else {
        0
    }
}

/// Overwriting the record at `k` with one for the same donor changes that
/// donor's cumulative donation and no other's.
pub proof fn lemma_donor_set(ds: Seq<DonorRecord>, k: int, v: DonorRecord)
    requires
        donors_distinct(ds),
        0 <= k < ds.len(),
        ds[k].donor == v.donor,
    ensures
        donors_distinct(ds.update(k, v)),
        donation_in(ds.update(k, v), v.donor) == v.amount,
        forall|d2: AccountId|
            d2 != v.donor ==> #[trigger] donation_in(ds.update(k, v), d2) == donation_in(ds, d2),
{
    let s2 = ds.update(k, v);
    lemma_donor_index(ds, v.donor);
    lemma_donor_index(s2, v.donor);
    assert(donor_index(s2, v.donor) == k) by {
        let r2 = donor_index(s2, v.donor);
        assert(s2[k] == v);
        if r2 >= 0 && r2 != k {
            assert(s2[r2] == ds[r2]);
            assert(ds[r2].donor == v.donor);
            if r2 < k {
                assert(ds[r2].donor != ds[k].donor);
            } else {
                assert(ds[k].donor != ds[r2].donor);
            }
        }
    }
    assert forall|d2: AccountId| d2 != v.donor implies #[trigger] donation_in(s2, d2)
        == donation_in(ds, d2) by {
        lemma_donor_index(ds, d2);
        lemma_donor_index(s2, d2);
        let r = donor_index(ds, d2);
        let r2 = donor_index(s2, d2);
        if r == -1 {
            assert(r2 == -1) by {
                if r2 >= 0 {
                    assert(ds[r2].donor == d2);
                }
            }
        } else {
            assert(r2 == r) by {
                assert(s2[r].donor == d2);
                if r2 != r {
                    assert(ds[r2].donor == d2);
                }
            }
        }
    }
}

/// Appending a record for a donor with no record yet gives that donor their
/// cumulative donation and leaves every other donor's alone.
pub proof fn lemma_donor_push(ds: Seq<DonorRecord>, v: DonorRecord)
    requires
        donors_distinct(ds),
        donor_index(ds, v.donor) == -1,
    ensures
        donors_distinct(ds.push(v)),
        donation_in(ds.push(v), v.donor) == v.amount,
        forall|d2: AccountId|
            d2 != v.donor ==> #[trigger] donation_in(ds.push(v), d2) == donation_in(ds, d2),
{
    let s2 = ds.push(v);
    lemma_donor_index(ds, v.donor);
    lemma_donor_index(s2, v.donor);
    assert(donor_index(s2, v.donor) == ds.len()) by {
        let r2 = donor_index(s2, v.donor);
        assert(s2[ds.len() as int] == v);
        if r2 >= 0 && r2 < ds.len() {
            assert(s2[r2] == ds[r2]);
            assert(ds[r2].donor == v.donor);
        }
    }
    assert forall|d2: AccountId| d2 != v.donor implies #[trigger] donation_in(s2, d2)
        == donation_in(ds, d2) by {
        lemma_donor_index(ds, d2);
        lemma_donor_index(s2, d2);
        let r = donor_index(ds, d2);
        let r2 = donor_index(s2, d2);
        if r == -1 {
            assert(r2 == -1) by {
                if r2 >= 0 {
                    assert(s2[r2].donor == d2);
                }
            }
        } else {
            assert(r2 == r) by {
                assert(s2[r].donor == d2);
                if r2 != r {
                    assert(s2[r2].donor == d2);
                }
            }
        }
    }
}

/// Replacing one donor record changes the total by the difference of the
/// two records' amounts.
pub proof fn lemma_donor_total_update(ds: Seq<DonorRecord>, k: int, v: DonorRecord)
    requires
        0 <= k < ds.len(),
    ensures
        donor_total(ds.update(k, v)) == donor_total(ds) - ds[k].amount + v.amount,
    decreases ds.len(),
{
    let s2 = ds.update(k, v);
    if k == ds.len() - 1 {
        assert(s2.drop_last() =~= ds.drop_last());
        assert(s2.last() == v);
    } else {
        assert(s2.drop_last() =~= ds.drop_last().update(k, v));
        assert(s2.last() == ds.last());
        lemma_donor_total_update(ds.drop_last(), k, v);
    }
}

/// Appending a donor record raises the total by its amount.
pub proof fn lemma_donor_total_push(ds: Seq<DonorRecord>, v: DonorRecord)
    ensures
        donor_total(ds.push(v)) == donor_total(ds) + v.amount,
{
    assert(ds.push(v).drop_last() =~= ds);
    assert(ds.push(v).last() == v);
}

/// A mutual-aid funding goal with a donor pool.
pub struct HelpRequest {
    pub id: u64,
    pub creator: AccountId,
    pub token: TokenId,
    pub goal: i128,
    /// Total ever donated; increases monotonically while the request is open
    /// and is not reduced by refunds.
    pub raised_amount: i128,
    pub status: HelpRequestStatus,
    /// Cumulative unrefunded donation per donor.
    pub donors: Vec<DonorRecord>,
}

impl HelpRequest {
    pub open spec fn wf(self) -> bool {
        &&& self.goal > 0
        &&& self.raised_amount >= 0
        &&& donors_distinct(self.donors@)
        &&& forall|i: int| 0 <= i < self.donors@.len() ==> (#[trigger] self.donors@[i]).amount >= 0
        &&& donor_total(self.donors@) <= self.raised_amount
        &&& self.status != HelpRequestStatus::Cancelled ==> donor_total(self.donors@)
            == self.raised_amount
        &&& self.status == HelpRequestStatus::Open ==> self.raised_amount < self.goal
        &&& self.status == HelpRequestStatus::FullyFunded ==> self.raised_amount >= self.goal
    }

    /// What is still owed to custody's donors: the unrefunded donations.
    pub open spec fn owed(self) -> int {
        donor_total(self.donors@)
    }

    /// The cumulative unrefunded donation of `donor`, zero if none.
    pub open spec fn donation_of(self, donor: AccountId) -> int {
        donation_in(self.donors@, donor)
    }
}

} // verus!
