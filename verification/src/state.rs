use vstd::prelude::*;

use crate::ledger::TokenLedger;
use crate::types::{donor_total, Entry, Giveaway, HelpRequest, TokenId};

verus! {

/// Index of the giveaway with `id` in `gs`, or -1 if none is stored.
pub open spec fn giveaway_index(gs: Seq<Giveaway>, id: u64) -> int
    decreases gs.len(),
{
    if gs.len() == 0 {
        -1
    } else if gs[0].id == id {
        0
    } else if giveaway_index(gs.drop_first(), id) < 0 {
        -1
    } else {
        1 + giveaway_index(gs.drop_first(), id)
    }
}

pub proof fn lemma_giveaway_index(gs: Seq<Giveaway>, id: u64)
    ensures
        ({
            let r = giveaway_index(gs, id);
            &&& -1 <= r < gs.len()
            &&& r >= 0 ==> gs[r].id == id && forall|j: int|
                0 <= j < r ==> (#[trigger] gs[j]).id != id
            &&& r == -1 ==> forall|j: int| 0 <= j < gs.len() ==> (#[trigger] gs[j]).id != id
        }),
    decreases gs.len(),
{
    if gs.len() > 0 && gs[0].id != id {
        lemma_giveaway_index(gs.drop_first(), id);
        assert forall|j: int| 1 <= j < gs.len() implies (#[trigger] gs[j]).id
            == gs.drop_first()[j - 1].id by {
            assert(gs.drop_first()[j - 1] == gs[j]);
        }
    }
}

/// Total prize money still owed from custody, over the giveaways in `t`.
pub open spec fn giveaways_owed(gs: Seq<Giveaway>, t: TokenId) -> int
    decreases gs.len(),
{
    if gs.len() == 0 {
        0
    } else {
        giveaways_owed(gs.drop_last(), t) + if gs.last().token == t {
            gs.last().owed()
        } else {
            0
        }
    }
}

/// Total unrefunded donations owed from custody, over the requests in `t`.
pub open spec fn requests_owed(rs: Seq<HelpRequest>, t: TokenId) -> int
    decreases rs.len(),
{
    if rs.len() == 0 {
        0
    } else {
        requests_owed(rs.drop_last(), t) + if rs.last().token == t {
            donor_total(rs.last().donors@)
        } else {
            0
        }
    }
}

/// Replacing one giveaway changes the owed total by the difference of the
/// two records' contributions.
pub proof fn lemma_giveaways_owed_update(gs: Seq<Giveaway>, k: int, g2: Giveaway, t: TokenId)
    requires
        0 <= k < gs.len(),
    ensures
        giveaways_owed(gs.update(k, g2), t) == giveaways_owed(gs, t) - (if gs[k].token == t {
            gs[k].owed()
        } else {
            0
        }) + (if g2.token == t {
            g2.owed()
        } else {
            0
        }),
    decreases gs.len(),
{
    let s2 = gs.update(k, g2);
    if k == gs.len() - 1 {
        assert(s2.drop_last() =~= gs.drop_last());
        assert(s2.last() == g2);
    } else {
        assert(s2.drop_last() =~= gs.drop_last().update(k, g2));
        assert(s2.last() == gs.last());
        lemma_giveaways_owed_update(gs.drop_last(), k, g2, t);
    }
}

/// Appending a giveaway raises the owed total by its own contribution.
pub proof fn lemma_giveaways_owed_push(gs: Seq<Giveaway>, g2: Giveaway, t: TokenId)
    ensures
        giveaways_owed(gs.push(g2), t) == giveaways_owed(gs, t) + (if g2.token == t {
            g2.owed()
        } else {
            0
        }),
{
    assert(gs.push(g2).drop_last() =~= gs);
    assert(gs.push(g2).last() == g2);
}

/// Replacing one request changes the owed total by the difference of the
/// two records' unrefunded donations.
pub proof fn lemma_requests_owed_update(rs: Seq<HelpRequest>, k: int, r2: HelpRequest, t: TokenId)
    requires
        0 <= k < rs.len(),
    ensures
        requests_owed(rs.update(k, r2), t) == requests_owed(rs, t) - (if rs[k].token == t {
            donor_total(rs[k].donors@)
        } else {
            0
        }) + (if r2.token == t {
            donor_total(r2.donors@)
        } else {
            0
        }),
    decreases rs.len(),
{
    let s2 = rs.update(k, r2);
    if k == rs.len() - 1 {
        assert(s2.drop_last() =~= rs.drop_last());
        assert(s2.last() == r2);
    } else {
        assert(s2.drop_last() =~= rs.drop_last().update(k, r2));
        assert(s2.last() == rs.last());
        lemma_requests_owed_update(rs.drop_last(), k, r2, t);
    }
}

/// Appending a request raises the owed total by its own unrefunded
/// donations.
pub proof fn lemma_requests_owed_push(rs: Seq<HelpRequest>, r2: HelpRequest, t: TokenId)
    ensures
        requests_owed(rs.push(r2), t) == requests_owed(rs, t) + (if r2.token == t {
            donor_total(r2.donors@)
        } else {
            0
        }),
{
    assert(rs.push(r2).drop_last() =~= rs);
    assert(rs.push(r2).last() == r2);
}

/// The whole contract: the custody ledger, the global admin and pause
/// records, the monotonic id allocators, and every campaign record ever
/// created. Records are never deleted; terminal states are retained.
pub struct ContractState {
    pub ledger: TokenLedger,
    /// Set once by `initialize`, immutable thereafter.
    pub admin: Option<crate::types::AccountId>,
    /// Emergency freeze flag, toggled by the admin.
    pub paused: bool,
    /// Allocator for giveaway and entry ids; the last id handed out.
    pub id_counter: u64,
    /// Allocator for help-request ids; the last id handed out.
    pub request_counter: u64,
    pub giveaways: Vec<Giveaway>,
    pub entries: Vec<Entry>,
    pub requests: Vec<HelpRequest>,
}

impl ContractState {
    pub open spec fn wf(self) -> bool {
        &&& self.ledger.wf()
        &&& forall|i: int| 0 <= i < self.giveaways@.len() ==> (#[trigger] self.giveaways@[i]).wf()
        &&& forall|i: int, j: int|
            0 <= i < j < self.giveaways@.len()
                ==> (#[trigger] self.giveaways@[i]).id != (#[trigger] self.giveaways@[j]).id
        &&& forall|i: int|
            0 <= i < self.giveaways@.len() ==> 1 <= (#[trigger] self.giveaways@[i]).id
                <= self.id_counter
        &&& forall|i: int, j: int|
            0 <= i < j < self.entries@.len()
                ==> (#[trigger] self.entries@[i]).id != (#[trigger] self.entries@[j]).id
        &&& forall|i: int|
            0 <= i < self.entries@.len() ==> 1 <= (#[trigger] self.entries@[i]).id
                <= self.id_counter
        &&& forall|i: int| 0 <= i < self.requests@.len() ==> (#[trigger] self.requests@[i]).wf()
        &&& self.requests@.len() == self.request_counter as nat
        &&& forall|i: int|
            0 <= i < self.requests@.len() ==> (#[trigger] self.requests@[i]).id as int == i + 1
    }

    /// Conservation of funds: for every token, the contract's custodial
    /// balance exactly covers the undistributed prizes plus the unrefunded
    /// donations in that token. Established by `new` and preserved by every
    /// campaign operation; only the admin escape hatch `admin_withdraw` and
    /// direct custody funding bypass it.
    pub open spec fn conserved(self) -> bool {
        forall|t: TokenId| #[trigger]
            self.ledger.spec_custody(t) == giveaways_owed(self.giveaways@, t) + requests_owed(
                self.requests@,
                t,
            )
    }

    /// A fresh contract: empty ledger, no admin, unpaused, no records.
    pub fn new() -> (s: ContractState)
        ensures
            s.wf(),
            s.conserved(),
            s.admin is None,
            !s.paused,
            s.id_counter == 0,
            s.request_counter == 0,
            s.giveaways@.len() == 0,
            s.entries@.len() == 0,
            s.requests@.len() == 0,
            forall|t: TokenId, o: crate::types::AccountId| #[trigger] s.ledger.spec_balance(t, o)
                == 0,
            forall|t: TokenId| #[trigger] s.ledger.spec_custody(t) == 0,
    {
        let s = ContractState {
            ledger: TokenLedger::new(),
            admin: None,
            paused: false,
            id_counter: 0,
            request_counter: 0,
            giveaways: Vec::new(),
            entries: Vec::new(),
            requests: Vec::new(),
        };
        s
    }

    /// Position of the giveaway with `id` among the stored giveaways.
    pub(crate) fn find_giveaway(&self, id: u64) -> (r: Option<usize>)
        ensures
            ({
                let i = giveaway_index(self.giveaways@, id);
                match r {
                    Some(k) => k as int == i && k < self.giveaways@.len(),
                    None => i == -1,
                }
            }),
    {
        proof {
            lemma_giveaway_index(self.giveaways@, id);
        }
        let n = self.giveaways.len();
        let mut k: usize = 0;
        while k < n
            invariant
                n == self.giveaways@.len(),
                0 <= k <= n,
                forall|j: int| 0 <= j < k ==> (#[trigger] self.giveaways@[j]).id != id,
                giveaway_index(self.giveaways@, id) >= 0 ==> giveaway_index(self.giveaways@, id)
                    >= k,
            decreases n - k,
        {
            proof {
                lemma_giveaway_index(self.giveaways@, id);
            }
            if self.giveaways[k].id == id {
                return Some(k);
            }
            k = k + 1;
        }
        None
    }
}

} // verus!
