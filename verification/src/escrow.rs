use vstd::prelude::*;

use crate::campaign::{
    find_entry, lemma_find_entry, lemma_find_entry_prefix, lemma_sum_entry_bound, pledge_applied,
    sum_contributions, Campaign, Contribution,
};

verus! {

/// Which ledger delta a pending outbound transfer will commit on confirmation.
#[derive(Clone, Copy, Debug, PartialEq, Eq, Structural)]
pub enum PendingKind {
    /// Debit the contributor's balance and the campaign's raised amount.
    Unpledge,
    /// Mark the campaign withdrawn; the raised record itself is kept.
    Withdraw,
    /// Debit the contributor's remaining balance and the raised amount.
    Refund,
    /// Mark the contributor's pledge as converted into an entitlement.
    Claim,
}

/// One outstanding outbound transfer together with the ledger delta to commit
/// once the remote token contract confirms it. Keyed by `operation_id`, so a
/// delayed or reordered confirmation can never credit or debit twice.
#[derive(Clone, Debug, PartialEq, Eq)]
pub struct PendingTransfer {
    pub operation_id: u64,
    pub campaign_id: u128,
    /// The ledger entry the delta touches; the owner for a withdrawal.
    pub account: String,
    pub kind: PendingKind,
    /// Asset the transfer moves.
    pub token_id: String,
    /// Tokens in flight; for a claim, the computed entitlement.
    pub amount: u128,
}

/// What the escrow hands the platform to execute: one transfer request to the
/// remote token contract, answered later by a confirmation or failure event
/// carrying the same operation id.
#[derive(Clone, Debug, PartialEq, Eq)]
pub struct TransferRequest {
    pub operation_id: u64,
    pub receiver_id: String,
    pub token_id: String,
    pub amount: u128,
}

/// A pending record is covered by the committed ledger it will be applied to:
/// the campaign exists, the touched entry exists and still holds at least the
/// amount in flight, and a pending withdrawal is not yet marked withdrawn.
pub open spec fn pending_record_wf(p: PendingTransfer, cs: Seq<Campaign>) -> bool {
    &&& p.campaign_id < cs.len()
    &&& match p.kind {
        PendingKind::Unpledge | PendingKind::Refund => {
            match find_entry(cs[p.campaign_id as int].contributors@, p.account@) {
                Some(i) => cs[p.campaign_id as int].contributors@[i].amount >= p.amount
                    && p.amount > 0,
                None => false,
            }
        },
        PendingKind::Withdraw => !cs[p.campaign_id as int].withdrawn && p.account@
            == cs[p.campaign_id as int].owner_id@,
        PendingKind::Claim => {
            match find_entry(cs[p.campaign_id as int].contributors@, p.account@) {
                Some(i) => !cs[p.campaign_id as int].contributors@[i].claimed,
                None => false,
            }
        },
    }
}

/// Two pending transfers conflict when their deltas could touch the same
/// ledger cell: the same contributor entry of one campaign, or the withdrawn
/// flag of one campaign.
pub open spec fn conflicts(p: PendingTransfer, q: PendingTransfer) -> bool {
    p.campaign_id == q.campaign_id && {
        ||| (p.kind != PendingKind::Withdraw && q.kind != PendingKind::Withdraw && p.account@
            == q.account@)
        ||| (p.kind == PendingKind::Withdraw && q.kind == PendingKind::Withdraw)
    }
}

/// A campaign change that keeps the owner and the withdrawn flag, keeps every
/// account and claim flag in place, and never shrinks a balance. Such a
/// change keeps every pending record covered.
pub open spec fn ledger_extended(c: Campaign, d: Campaign) -> bool {
    &&& d.withdrawn == c.withdrawn
    &&& d.owner_id == c.owner_id
    &&& c.contributors@.len() <= d.contributors@.len()
    &&& forall|k: int|
        0 <= k < c.contributors@.len() ==> {
            &&& (#[trigger] d.contributors@[k]).account@ == c.contributors@[k].account@
            &&& d.contributors@[k].amount >= c.contributors@[k].amount
            &&& d.contributors@[k].claimed == c.contributors@[k].claimed
        }
}

pub proof fn lemma_record_wf_extended(p: PendingTransfer, cs1: Seq<Campaign>, cs2: Seq<Campaign>)
    requires
        pending_record_wf(p, cs1),
        cs1.len() == cs2.len(),
        ledger_extended(cs1[p.campaign_id as int], cs2[p.campaign_id as int]),
    ensures
        pending_record_wf(p, cs2),
{
    let c = cs1[p.campaign_id as int];
    let d = cs2[p.campaign_id as int];
    if p.kind != PendingKind::Withdraw {
        lemma_find_entry(c.contributors@, p.account@);
        let i = find_entry(c.contributors@, p.account@).unwrap();
        assert forall|j: int| 0 <= j < i implies (#[trigger] d.contributors@[j]).account@
            != p.account@ by {
            assert(c.contributors@[j].account@ != p.account@);
        }
        lemma_find_entry_prefix(d.contributors@, p.account@, i);
    }
}

/// A committed pledge is such a change.
pub proof fn lemma_pledge_extends(c: Campaign, d: Campaign, account: String, amount: u128)
    requires
        c.wf(),
        sum_contributions(c.contributors@) + amount <= u128::MAX,
        pledge_applied(c, d, account, amount),
    ensures
        ledger_extended(c, d),
{
    lemma_find_entry(c.contributors@, account@);
    assert forall|k: int| 0 <= k < c.contributors@.len() implies {
        &&& (#[trigger] d.contributors@[k]).account@ == c.contributors@[k].account@
        &&& d.contributors@[k].amount >= c.contributors@[k].amount
        &&& d.contributors@[k].claimed == c.contributors@[k].claimed
    } by {
        lemma_find_entry(c.contributors@, account@);
        match find_entry(c.contributors@, account@) {
            Some(i) => {
                lemma_sum_entry_bound(c.contributors@, i);
                assert(d.contributors@ == c.contributors@.update(
                    i,
                    Contribution {
                        account: c.contributors@[i].account,
                        amount: (c.contributors@[i].amount + amount) as u128,
                        claimed: c.contributors@[i].claimed,
                    },
                ));
            },
            None => {
                assert(d.contributors@[k] == c.contributors@[k]);
            },
        }
    }
    match find_entry(c.contributors@, account@) {
        Some(i) => {
            assert(d.contributors@.len() == c.contributors@.len());
        },
        None => {
            assert(d.contributors@.len() == c.contributors@.len() + 1);
        },
    }
}

/// What confirming one pending transfer commits to its campaign record:
/// an unpledge or refund debits the entry and the raised amount; a
/// withdrawal sets the withdrawn flag and keeps the raised record; a claim
/// marks the entry converted. Every other field is kept.
pub open spec fn delta_applied(c: Campaign, d: Campaign, p: PendingTransfer) -> bool {
    &&& d.name == c.name
    &&& d.goal == c.goal
    &&& d.is_active == c.is_active
    &&& d.cancelled == c.cancelled
    &&& d.owner_id == c.owner_id
    &&& d.incoming_token_id == c.incoming_token_id
    &&& d.outgoing_token_id == c.outgoing_token_id
    &&& d.start_time == c.start_time
    &&& d.end_time == c.end_time
    &&& match p.kind {
        PendingKind::Unpledge | PendingKind::Refund => match find_entry(
            c.contributors@,
            p.account@,
        ) {
            Some(i) => {
                &&& d.withdrawn == c.withdrawn
                &&& d.raised == c.raised - p.amount
                &&& d.contributors@ == c.contributors@.update(
                    i,
                    Contribution {
                        account: c.contributors@[i].account,
                        amount: (c.contributors@[i].amount - p.amount) as u128,
                        claimed: c.contributors@[i].claimed,
                    },
                )
            },
            None => false,
        },
        PendingKind::Withdraw => {
            &&& d.withdrawn == true
            &&& d.raised == c.raised
            &&& d.contributors@ == c.contributors@
        },
        PendingKind::Claim => match find_entry(c.contributors@, p.account@) {
            Some(i) => {
                &&& d.withdrawn == c.withdrawn
                &&& d.raised == c.raised
                &&& d.contributors@ == c.contributors@.update(
                    i,
                    Contribution {
                        account: c.contributors@[i].account,
                        amount: c.contributors@[i].amount,
                        claimed: true,
                    },
                )
            },
            None => false,
        },
    }
}

pub proof fn lemma_conflicts_symmetric(p: PendingTransfer, q: PendingTransfer)
    ensures
        conflicts(p, q) == conflicts(q, p),
{
}

/// The first pending record carrying the given operation id, if any.
pub open spec fn find_pending(s: Seq<PendingTransfer>, operation_id: u64) -> Option<int>
    decreases s.len(),
{
    if s.len() == 0 {
        None
    } else if s[0].operation_id == operation_id {
        Some(0)
    } else {
        match find_pending(s.drop_first(), operation_id) {
            Some(i) => Some(i + 1),
            None => None,
        }
    }
}

pub proof fn lemma_find_pending(s: Seq<PendingTransfer>, operation_id: u64)
    ensures
        match find_pending(s, operation_id) {
            Some(i) => 0 <= i < s.len() && s[i].operation_id == operation_id,
            None => forall|j: int|
                0 <= j < s.len() ==> (#[trigger] s[j]).operation_id != operation_id,
        },
    decreases s.len(),
{
    if s.len() > 0 && s[0].operation_id != operation_id {
        lemma_find_pending(s.drop_first(), operation_id);
        match find_pending(s.drop_first(), operation_id) {
            Some(i) => {
                assert(s.drop_first()[i] == s[i + 1]);
            },
            None => {
                assert forall|j: int| 0 <= j < s.len() implies (#[trigger] s[j]).operation_id
                    != operation_id by {
                    if j > 0 {
                        assert(s.drop_first()[j - 1] == s[j]);
                    }
                }
            },
        }
    }
}

proof fn lemma_find_pending_prefix(s: Seq<PendingTransfer>, operation_id: u64, i: int)
    requires
        0 <= i < s.len(),
        s[i].operation_id == operation_id,
        forall|j: int| 0 <= j < i ==> (#[trigger] s[j]).operation_id != operation_id,
    ensures
        find_pending(s, operation_id) == Some(i),
    decreases s.len(),
{
    if i > 0 {
        assert forall|j: int| 0 <= j < i - 1 implies (#[trigger] s.drop_first()[j]).operation_id
            != operation_id by {
            assert(s.drop_first()[j] == s[j + 1]);
        }
        assert(s.drop_first()[i - 1] == s[i]);
        lemma_find_pending_prefix(s.drop_first(), operation_id, i - 1);
    }
}

/// Looks an outstanding transfer up by its operation id.
pub fn find_pending_index(s: &Vec<PendingTransfer>, operation_id: u64) -> (r: Option<usize>)
    ensures
        match r {
            Some(i) => Some(i as int) == find_pending(s@, operation_id),
            None => find_pending(s@, operation_id) is None,
        },
{
    let mut i: usize = 0;
    while i < s.len()
        invariant
            0 <= i <= s@.len(),
            forall|j: int| 0 <= j < i ==> (#[trigger] s@[j]).operation_id != operation_id,
        decreases s@.len() - i,
    {
        if s[i].operation_id == operation_id {
            proof {
                lemma_find_pending_prefix(s@, operation_id, i as int);
            }
            return Some(i);
        }
        i = i + 1;
    }
    proof {
        lemma_find_pending(s@, operation_id);
        if find_pending(s@, operation_id) is Some {
            let w = find_pending(s@, operation_id).unwrap();
            assert(s@[w].operation_id != operation_id);
        }
    }
    None
}

} // verus!
