use vstd::prelude::*;
use vstd::string::StrSliceExecFns;

pub mod account;
pub mod amount;
pub mod campaign;
pub mod errors;
pub mod escrow;
pub mod request;

use crate::account::{is_valid_account_id, spec_valid_account_str};
use crate::campaign::{
    find_contribution, find_entry, lemma_find_entry, lemma_find_entry_same_accounts,
    lemma_sum_entry_bound, lemma_sum_update, only_owner_contributions, pledge_applied,
    sum_contributions, Campaign, Contribution, Status,
};
use crate::errors::{Error, Field};
use crate::escrow::{
    conflicts, delta_applied, find_pending, lemma_find_pending, lemma_pledge_extends,
    lemma_record_wf_extended, pending_record_wf, PendingKind, PendingTransfer, TransferRequest,
};
use crate::request::{Kind, Request};

verus! {

/// Sum of the raised amounts over all campaigns, as an unbounded integer.
pub open spec fn sum_raised(s: Seq<Campaign>) -> int
    decreases s.len(),
{
    if s.len() == 0 {
        0
    } else {
        s[0].raised + sum_raised(s.drop_first())
    }
}

pub proof fn lemma_sum_raised_push(s: Seq<Campaign>, c: Campaign)
    ensures
        sum_raised(s.push(c)) == sum_raised(s) + c.raised,
    decreases s.len(),
{
    if s.len() == 0 {
        assert(s.push(c).drop_first() =~= s);
    } else {
        assert(s.push(c).drop_first() =~= s.drop_first().push(c));
        lemma_sum_raised_push(s.drop_first(), c);
    }
}

pub proof fn lemma_sum_raised_update(s: Seq<Campaign>, i: int, c: Campaign)
    requires
        0 <= i < s.len(),
    ensures
        sum_raised(s.update(i, c)) == sum_raised(s) - s[i].raised + c.raised,
    decreases s.len(),
{
    if i == 0 {
        assert(s.update(0, c).drop_first() =~= s.drop_first());
    } else {
        assert(s.update(i, c).drop_first() =~= s.drop_first().update(i - 1, c));
        lemma_sum_raised_update(s.drop_first(), i - 1, c);
    }
}

pub proof fn lemma_sum_raised_nonneg(s: Seq<Campaign>)
    ensures
        sum_raised(s) >= 0,
    decreases s.len(),
{
    if s.len() > 0 {
        lemma_sum_raised_nonneg(s.drop_first());
    }
}

/// Each campaign's raised amount is bounded by the global sum.
pub proof fn lemma_sum_raised_entry_bound(s: Seq<Campaign>, i: int)
    requires
        0 <= i < s.len(),
    ensures
        sum_raised(s) >= s[i].raised,
    decreases s.len(),
{
    lemma_sum_raised_nonneg(s.drop_first());
    if i > 0 {
        lemma_sum_raised_entry_bound(s.drop_first(), i - 1);
    }
}

/// The crowdfunding contract state: one ordered mapping from monotonically
/// increasing campaign id to campaign record (the id is the position), two
/// global counters, and the escrow's outstanding outbound transfers.
pub struct NearIDO {
    pub campaigns: Vec<Campaign>,
    pub total_campaigns: u128,
    pub total_contributions: u128,
    pub pending: Vec<PendingTransfer>,
    pub next_operation_id: u64,
}

impl NearIDO {
    pub open spec fn has_campaign(&self, campaign_id: u128) -> bool {
        campaign_id < self.campaigns@.len()
    }

    pub open spec fn campaign_at(&self, campaign_id: u128) -> Campaign {
        self.campaigns@[campaign_id as int]
    }

    /// The escrow's invariant: every outstanding transfer is covered by the
    /// committed ledger, operation ids are unique and below the allocator,
    /// and no two outstanding transfers touch the same ledger cell.
    pub open spec fn pending_wf(&self) -> bool {
        &&& forall|i: int|
            0 <= i < self.pending@.len() ==> pending_record_wf(
                #[trigger] self.pending@[i],
                self.campaigns@,
            )
        &&& forall|i: int|
            0 <= i < self.pending@.len() ==> (#[trigger] self.pending@[i]).operation_id
                < self.next_operation_id
        &&& forall|i: int, j: int|
            0 <= i < j < self.pending@.len() ==> self.pending@[i].operation_id
                != self.pending@[j].operation_id
        &&& forall|i: int, j: int|
            0 <= i < j < self.pending@.len() ==> !conflicts(
                self.pending@[i],
                self.pending@[j],
            )
    }

    /// Well-formedness of the whole store: the counters agree with the
    /// records, every campaign record is internally consistent, and the
    /// escrow invariant holds.
    pub open spec fn wf(&self) -> bool {
        &&& self.total_campaigns == self.campaigns@.len()
        &&& self.total_contributions == sum_raised(self.campaigns@)
        &&& forall|i: int| 0 <= i < self.campaigns@.len() ==> (#[trigger] self.campaigns@[i]).wf()
        &&& self.pending_wf()
    }

    /// A fresh store: no campaigns, no contributions, nothing outstanding.
    pub fn new() -> (s: Self)
        ensures
            s.wf(),
            s.campaigns@.len() == 0,
            s.total_campaigns == 0,
            s.total_contributions == 0,
            s.pending@.len() == 0,
    {
        NearIDO {
            campaigns: Vec::new(),
            total_campaigns: 0,
            total_contributions: 0,
            pending: Vec::new(),
            next_operation_id: 0,
        }
    }

    /// Looks a campaign up by id; fails with `NotFound` for an unknown id.
    pub fn get_campaign(&self, campaign_id: u128) -> (r: Result<&Campaign, Error>)
        ensures
            match r {
                Ok(c) => self.has_campaign(campaign_id) && *c == self.campaign_at(campaign_id),
                Err(e) => !self.has_campaign(campaign_id) && e == Error::NotFound,
            },
    {
        if campaign_id < self.campaigns.len() as u128 {
            Ok(&self.campaigns[campaign_id as usize])
        } else {
            Err(Error::NotFound)
        }
    }

    /// The conditions under which creation succeeds, in the order they are
    /// checked; each names the field its violation is reported on.
    pub open spec fn create_valid(
        &self,
        owner_id: String,
        name: String,
        goal: u128,
        incoming_token_id: String,
        outgoing_token_id: String,
        initial_amount: u128,
        start_time: u64,
        end_time: u64,
        now: u64,
    ) -> bool {
        &&& 1 <= name@.len() <= 64
        &&& goal > 0
        &&& initial_amount > 0
        &&& start_time > now
        &&& end_time > start_time
        &&& spec_valid_account_str(incoming_token_id@)
        &&& spec_valid_account_str(outgoing_token_id@)
        &&& spec_valid_account_str(owner_id@)
        &&& self.total_contributions + initial_amount <= u128::MAX
    }

    /// Creates a campaign: validates every field, then atomically commits the
    /// new record (the attached deposit is the owner's own first pledge)
    /// together with both incremented global counters.
    pub fn internal_create_campaign(
        &mut self,
        owner_id: String,
        name: String,
        goal: u128,
        incoming_token_id: String,
        outgoing_token_id: String,
        initial_amount: u128,
        start_time: u64,
        end_time: u64,
        now: u64,
    ) -> (r: Result<u128, Error>)
        requires
            old(self).wf(),
        ensures
            final(self).wf(),
            r is Err ==> *final(self) == *old(self),
            r is Ok <==> old(self).create_valid(
                owner_id,
                name,
                goal,
                incoming_token_id,
                outgoing_token_id,
                initial_amount,
                start_time,
                end_time,
                now,
            ),
            !(1 <= name@.len() <= 64) ==> r == Err::<u128, Error>(
                Error::Validation(Field::Name),
            ),
            1 <= name@.len() <= 64 && goal == 0 ==> r == Err::<u128, Error>(
                Error::Validation(Field::Goal),
            ),
            1 <= name@.len() <= 64 && goal > 0 && initial_amount == 0 ==> r == Err::<u128, Error>(
                Error::Validation(Field::InitialAmount),
            ),
            r is Ok ==> {
                &&& r == Ok::<u128, Error>(old(self).total_campaigns)
                &&& final(self).total_campaigns == old(self).total_campaigns + 1
                &&& final(self).total_contributions == old(self).total_contributions
                    + initial_amount
                &&& final(self).campaigns@.len() == old(self).campaigns@.len() + 1
                &&& forall|k: int|
                    0 <= k < old(self).campaigns@.len() ==> final(self).campaigns@[k] == old(self).campaigns@[k]
                &&& created_campaign(
                    final(self).campaigns@.last(),
                    owner_id,
                    name,
                    goal,
                    incoming_token_id,
                    outgoing_token_id,
                    initial_amount,
                    start_time,
                    end_time,
                )
                &&& final(self).pending == old(self).pending
                &&& final(self).next_operation_id == old(self).next_operation_id
            },
    {
        let name_len = name.as_str().unicode_len();
        if name_len < 1 || name_len > 64 {
            return Err(Error::Validation(Field::Name));
        }
        if goal == 0 {
            return Err(Error::Validation(Field::Goal));
        }
        if initial_amount == 0 {
            return Err(Error::Validation(Field::InitialAmount));
        }
        if start_time <= now {
            return Err(Error::Validation(Field::StartTime));
        }
        if end_time <= start_time {
            return Err(Error::Validation(Field::EndTime));
        }
        if !is_valid_account_id(incoming_token_id.as_str()) {
            return Err(Error::Validation(Field::IncomingToken));
        }
        if !is_valid_account_id(outgoing_token_id.as_str()) {
            return Err(Error::Validation(Field::OutgoingToken));
        }
        if !is_valid_account_id(owner_id.as_str()) {
            return Err(Error::Validation(Field::Owner));
        }
        let total = match self.total_contributions.checked_add(initial_amount) {
            Some(t) => t,
            None => {
                return Err(Error::Validation(Field::InitialAmount));
            },
        };
        let campaign_id = self.total_campaigns;
        let mut contributors: Vec<Contribution> = Vec::new();
        contributors.push(
            Contribution { account: owner_id.clone(), amount: initial_amount, claimed: false },
        );
        let record = Campaign {
            name,
            goal,
            raised: initial_amount,
            is_active: true,
            cancelled: false,
            withdrawn: false,
            owner_id,
            contributors,
            incoming_token_id,
            outgoing_token_id,
            start_time,
            end_time,
        };
        proof {
            assert(record.contributors@.drop_first() =~= Seq::<Contribution>::empty());
            assert(sum_contributions(Seq::<Contribution>::empty()) == 0);
            assert(record.contributors@[0].amount == initial_amount);
            assert(record.wf());
            lemma_sum_raised_push(self.campaigns@, record);
        }
        self.campaigns.push(record);
        let n = self.campaigns.len();
        proof {
            assert(self.total_campaigns + 1 == n as int);
        }
        self.total_campaigns = self.total_campaigns + 1;
        self.total_contributions = total;
        proof {
            let cs1 = old(self).campaigns@;
            let cs2 = self.campaigns@;
            assert forall|i: int|
                0 <= i < self.pending@.len() implies pending_record_wf(
                #[trigger] self.pending@[i],
                cs2,
            ) by {
                let p = self.pending@[i];
                assert(pending_record_wf(p, cs1));
                assert(cs2[p.campaign_id as int] == cs1[p.campaign_id as int]);
            }
        }
        Ok(campaign_id)
    }
}

impl NearIDO {
    /// The conditions under which a pledge is accepted: the campaign exists,
    /// is resolved Active, is not paused by its owner, and the amount is a
    /// positive number the counters can absorb.
    pub open spec fn pledge_allowed(&self, campaign_id: u128, amount: u128, now: u64) -> bool {
        &&& self.has_campaign(campaign_id)
        &&& self.campaign_at(campaign_id).spec_status(now) == Status::Active
        &&& self.campaign_at(campaign_id).is_active
        &&& amount > 0
        &&& self.total_contributions + amount <= u128::MAX
    }

    /// Registers a pledge: credits the contributor's balance, the campaign's
    /// raised amount and the global counter, atomically. After the end of the
    /// window the pledge is rejected whatever the goal progress.
    pub fn pledge(
        &mut self,
        campaign_id: u128,
        contributor: &String,
        amount: u128,
        now: u64,
    ) -> (r: Result<(), Error>)
        requires
            old(self).wf(),
        ensures
            final(self).wf(),
            r is Err ==> *final(self) == *old(self),
            r is Ok <==> old(self).pledge_allowed(campaign_id, amount, now),
            !old(self).has_campaign(campaign_id) ==> r == Err::<(), Error>(Error::NotFound),
            old(self).has_campaign(campaign_id) && (old(self).campaign_at(
                campaign_id,
            ).spec_status(now) != Status::Active || !old(self).campaign_at(campaign_id).is_active)
                ==> r == Err::<(), Error>(Error::InvalidTransition),
            old(self).has_campaign(campaign_id) && old(self).campaign_at(campaign_id).spec_status(
                now,
            ) == Status::Active && old(self).campaign_at(campaign_id).is_active && !(amount > 0
                && old(self).total_contributions + amount <= u128::MAX) ==> r == Err::<(), Error>(
                Error::Validation(Field::Amount),
            ),
            r is Ok ==> {
                &&& final(self).campaigns@.len() == old(self).campaigns@.len()
                &&& forall|k: int|
                    0 <= k < old(self).campaigns@.len() && k != campaign_id as int ==> final(self).campaigns@[k] == old(self).campaigns@[k]
                &&& pledge_applied(
                    old(self).campaign_at(campaign_id),
                    final(self).campaign_at(campaign_id),
                    *contributor,
                    amount,
                )
                &&& final(self).total_contributions == old(self).total_contributions + amount
                &&& final(self).total_campaigns == old(self).total_campaigns
                &&& final(self).pending == old(self).pending
                &&& final(self).next_operation_id == old(self).next_operation_id
            },
    {
        if campaign_id >= self.campaigns.len() as u128 {
            return Err(Error::NotFound);
        }
        let i = campaign_id as usize;
        let st = self.campaigns[i].status(now);
        if !(st == Status::Active) {
            return Err(Error::InvalidTransition);
        }
        if !self.campaigns[i].is_active {
            return Err(Error::InvalidTransition);
        }
        if amount == 0 {
            return Err(Error::Validation(Field::Amount));
        }
        let total = match self.total_contributions.checked_add(amount) {
            Some(t) => t,
            None => {
                return Err(Error::Validation(Field::Amount));
            },
        };
        proof {
            lemma_sum_raised_entry_bound(self.campaigns@, campaign_id as int);
        }
        self.campaigns[i].apply_pledge(contributor, amount);
        self.total_contributions = total;
        proof {
            let cid = campaign_id as int;
            let cs1 = old(self).campaigns@;
            let cs2 = self.campaigns@;
            assert(cs2 == cs1.update(cid, cs2[cid]));
            lemma_sum_raised_update(cs1, cid, cs2[cid]);
            lemma_pledge_extends(cs1[cid], cs2[cid], *contributor, amount);
            assert forall|ii: int| 0 <= ii < self.pending@.len() implies pending_record_wf(
                #[trigger] self.pending@[ii],
                cs2,
            ) by {
                let q = self.pending@[ii];
                if q.campaign_id as int != cid {
                    assert(cs2[q.campaign_id as int] == cs1[q.campaign_id as int]);
                }
                lemma_record_wf_extended(q, cs1, cs2);
            }
        }
        Ok(())
    }

    /// The owner may toggle a campaign's active flag while the campaign has
    /// not resolved: before its end time, and unless it was cancelled.
    pub open spec fn set_status_allowed(&self, campaign_id: u128, caller: String, now: u64) -> bool {
        &&& self.has_campaign(campaign_id)
        &&& caller@ == self.campaign_at(campaign_id).owner_id@
        &&& !self.campaign_at(campaign_id).cancelled
        &&& now < self.campaign_at(campaign_id).end_time
    }

    /// Pauses or resumes a campaign. Only the owner may do so, and only while
    /// the campaign is unresolved: a resolved campaign cannot be reactivated.
    pub fn change_campaign_status(
        &mut self,
        campaign_id: u128,
        is_active: bool,
        caller: &String,
        now: u64,
    ) -> (r: Result<(), Error>)
        requires
            old(self).wf(),
        ensures
            final(self).wf(),
            r is Err ==> *final(self) == *old(self),
            r is Ok <==> old(self).set_status_allowed(campaign_id, *caller, now),
            !old(self).has_campaign(campaign_id) ==> r == Err::<(), Error>(Error::NotFound),
            old(self).has_campaign(campaign_id) && caller@ != old(self).campaign_at(
                campaign_id,
            ).owner_id@ ==> r == Err::<(), Error>(Error::Unauthorized),
            old(self).has_campaign(campaign_id) && caller@ == old(self).campaign_at(
                campaign_id,
            ).owner_id@ && (old(self).campaign_at(campaign_id).cancelled || now >= old(self).campaign_at(campaign_id).end_time) ==> r == Err::<(), Error>(
                Error::InvalidTransition,
            ),
            r is Ok ==> {
                &&& final(self).campaigns@ == old(self).campaigns@.update(
                    campaign_id as int,
                    final(self).campaign_at(campaign_id),
                )
                &&& final(self).campaign_at(campaign_id) == (Campaign {
                    is_active,
                    ..old(self).campaign_at(campaign_id)
                })
                &&& final(self).total_campaigns == old(self).total_campaigns
                &&& final(self).total_contributions == old(self).total_contributions
                &&& final(self).pending == old(self).pending
                &&& final(self).next_operation_id == old(self).next_operation_id
            },
    {
        if campaign_id >= self.campaigns.len() as u128 {
            return Err(Error::NotFound);
        }
        let i = campaign_id as usize;
        if !caller.eq(&self.campaigns[i].owner_id) {
            return Err(Error::Unauthorized);
        }
        if self.campaigns[i].cancelled || now >= self.campaigns[i].end_time {
            return Err(Error::InvalidTransition);
        }
        self.campaigns[i].is_active = is_active;
        proof {
            let cid = campaign_id as int;
            let cs1 = old(self).campaigns@;
            let cs2 = self.campaigns@;
            assert(cs2 == cs1.update(cid, cs2[cid]));
            lemma_sum_raised_update(cs1, cid, cs2[cid]);
            assert forall|ii: int| 0 <= ii < self.pending@.len() implies pending_record_wf(
                #[trigger] self.pending@[ii],
                cs2,
            ) by {
                let q = self.pending@[ii];
                if q.campaign_id as int != cid {
                    assert(cs2[q.campaign_id as int] == cs1[q.campaign_id as int]);
                }
                lemma_record_wf_extended(q, cs1, cs2);
            }
        }
        Ok(())
    }

    /// The owner may cancel while the campaign is Active and no pledge beyond
    /// the owner's own deposit was accepted.
    pub open spec fn cancel_allowed(&self, campaign_id: u128, caller: String, now: u64) -> bool {
        &&& self.has_campaign(campaign_id)
        &&& caller@ == self.campaign_at(campaign_id).owner_id@
        &&& self.campaign_at(campaign_id).spec_status(now) == Status::Active
        &&& only_owner_contributions(self.campaign_at(campaign_id))
    }

    /// Cancels a campaign: it leaves Active for the cancelled variant of
    /// Expired at once, so any outstanding balance flows through the normal
    /// refund path.
    pub fn cancel(&mut self, campaign_id: u128, caller: &String, now: u64) -> (r: Result<
        (),
        Error,
    >)
        requires
            old(self).wf(),
        ensures
            final(self).wf(),
            r is Err ==> *final(self) == *old(self),
            r is Ok <==> old(self).cancel_allowed(campaign_id, *caller, now),
            !old(self).has_campaign(campaign_id) ==> r == Err::<(), Error>(Error::NotFound),
            old(self).has_campaign(campaign_id) && caller@ != old(self).campaign_at(
                campaign_id,
            ).owner_id@ ==> r == Err::<(), Error>(Error::Unauthorized),
            r is Ok ==> {
                &&& final(self).campaigns@ == old(self).campaigns@.update(
                    campaign_id as int,
                    final(self).campaign_at(campaign_id),
                )
                &&& final(self).campaign_at(campaign_id) == (Campaign {
                    cancelled: true,
                    ..old(self).campaign_at(campaign_id)
                })
                &&& final(self).total_campaigns == old(self).total_campaigns
                &&& final(self).total_contributions == old(self).total_contributions
                &&& final(self).pending == old(self).pending
                &&& final(self).next_operation_id == old(self).next_operation_id
            },
    {
        if campaign_id >= self.campaigns.len() as u128 {
            return Err(Error::NotFound);
        }
        let i = campaign_id as usize;
        if !caller.eq(&self.campaigns[i].owner_id) {
            return Err(Error::Unauthorized);
        }
        let st = self.campaigns[i].status(now);
        if !(st == Status::Active) {
            return Err(Error::InvalidTransition);
        }
        if !self.campaigns[i].only_owner_entries() {
            return Err(Error::InvalidTransition);
        }
        self.campaigns[i].cancelled = true;
        proof {
            let cid = campaign_id as int;
            let cs1 = old(self).campaigns@;
            let cs2 = self.campaigns@;
            assert(cs2 == cs1.update(cid, cs2[cid]));
            lemma_sum_raised_update(cs1, cid, cs2[cid]);
            assert forall|ii: int| 0 <= ii < self.pending@.len() implies pending_record_wf(
                #[trigger] self.pending@[ii],
                cs2,
            ) by {
                let q = self.pending@[ii];
                if q.campaign_id as int != cid {
                    assert(cs2[q.campaign_id as int] == cs1[q.campaign_id as int]);
                }
                lemma_record_wf_extended(q, cs1, cs2);
            }
        }
        Ok(())
    }
}

/// Whether a pending transfer's delta touches the given contributor entry.
pub open spec fn touches(p: PendingTransfer, campaign_id: u128, account: Seq<char>) -> bool {
    p.campaign_id == campaign_id && p.kind != PendingKind::Withdraw && p.account@ == account
}

impl NearIDO {
    /// Some outstanding transfer will debit or mark this contributor's entry.
    pub open spec fn spec_pending_touches(&self, campaign_id: u128, account: Seq<char>) -> bool {
        exists|i: int|
            0 <= i < self.pending@.len() && touches(#[trigger] self.pending@[i], campaign_id, account)
    }

    /// Some outstanding transfer is a withdrawal of this campaign.
    pub open spec fn spec_pending_withdraw(&self, campaign_id: u128) -> bool {
        exists|i: int|
            0 <= i < self.pending@.len() && (#[trigger] self.pending@[i]).campaign_id == campaign_id
                && self.pending@[i].kind == PendingKind::Withdraw
    }

    /// Some outstanding transfer will decrease this campaign's raised amount.
    pub open spec fn spec_pending_debit(&self, campaign_id: u128) -> bool {
        exists|i: int|
            0 <= i < self.pending@.len() && (#[trigger] self.pending@[i]).campaign_id == campaign_id
                && (self.pending@[i].kind == PendingKind::Unpledge || self.pending@[i].kind
                == PendingKind::Refund)
    }

    fn pending_touches(&self, campaign_id: u128, account: &String) -> (r: bool)
        ensures
            r == self.spec_pending_touches(campaign_id, account@),
    {
        let mut i: usize = 0;
        while i < self.pending.len()
            invariant
                0 <= i <= self.pending@.len(),
                forall|j: int| 0 <= j < i ==> !touches(#[trigger] self.pending@[j], campaign_id, account@),
            decreases self.pending@.len() - i,
        {
            let p = &self.pending[i];
            if p.campaign_id == campaign_id && !(p.kind == PendingKind::Withdraw) && p.account.eq(
                account,
            ) {
                return true;
            }
            i = i + 1;
        }
        false
    }

    fn pending_withdraw(&self, campaign_id: u128) -> (r: bool)
        ensures
            r == self.spec_pending_withdraw(campaign_id),
    {
        let mut i: usize = 0;
        while i < self.pending.len()
            invariant
                0 <= i <= self.pending@.len(),
                forall|j: int|
                    0 <= j < i ==> !((#[trigger] self.pending@[j]).campaign_id == campaign_id
                        && self.pending@[j].kind == PendingKind::Withdraw),
            decreases self.pending@.len() - i,
        {
            let p = &self.pending[i];
            if p.campaign_id == campaign_id && p.kind == PendingKind::Withdraw {
                return true;
            }
            i = i + 1;
        }
        false
    }

    fn pending_debit(&self, campaign_id: u128) -> (r: bool)
        ensures
            r == self.spec_pending_debit(campaign_id),
    {
        let mut i: usize = 0;
        while i < self.pending.len()
            invariant
                0 <= i <= self.pending@.len(),
                forall|j: int|
                    0 <= j < i ==> !((#[trigger] self.pending@[j]).campaign_id == campaign_id
                        && (self.pending@[j].kind == PendingKind::Unpledge
                        || self.pending@[j].kind == PendingKind::Refund)),
            decreases self.pending@.len() - i,
        {
            let p = &self.pending[i];
            if p.campaign_id == campaign_id && (p.kind == PendingKind::Unpledge || p.kind
                == PendingKind::Refund) {
                return true;
            }
            i = i + 1;
        }
        false
    }

    /// Appends a fresh pending transfer and hands back the matching request.
    /// The record must not conflict with anything outstanding.
    fn push_pending(&mut self, record: PendingTransfer, receiver_id: String) -> (t: TransferRequest)
        requires
            old(self).wf(),
            pending_record_wf(record, old(self).campaigns@),
            record.operation_id == old(self).next_operation_id,
            old(self).next_operation_id < u64::MAX,
            forall|j: int|
                0 <= j < old(self).pending@.len() ==> !conflicts(
                    #[trigger] old(self).pending@[j],
                    record,
                ),
        ensures
            final(self).wf(),
            final(self).campaigns == old(self).campaigns,
            final(self).total_campaigns == old(self).total_campaigns,
            final(self).total_contributions == old(self).total_contributions,
            final(self).pending@ == old(self).pending@.push(record),
            final(self).next_operation_id == old(self).next_operation_id + 1,
            t.operation_id == record.operation_id,
            t.receiver_id == receiver_id,
            t.token_id == record.token_id,
            t.amount == record.amount,
    {
        let t = TransferRequest {
            operation_id: record.operation_id,
            receiver_id,
            token_id: record.token_id.clone(),
            amount: record.amount,
        };
        self.pending.push(record);
        self.next_operation_id = self.next_operation_id + 1;
        proof {
            let ps1 = old(self).pending@;
            let ps2 = self.pending@;
            assert forall|a: int, b: int| 0 <= a < b < ps2.len() implies !conflicts(
                ps2[a],
                ps2[b],
            ) && ps2[a].operation_id != ps2[b].operation_id by {
                if b == ps1.len() {
                    assert(ps2[a] == ps1[a]);
                    assert(!conflicts(ps1[a], record));
                    assert(conflicts(ps1[a], ps2[b]) == conflicts(ps1[a], record));
                } else {
                    assert(ps2[a] == ps1[a]);
                    assert(ps2[b] == ps1[b]);
                }
            }
        }
        t
    }

    /// The conditions under which an unpledge is accepted: the campaign is
    /// Active, the contributor's recorded balance covers the amount, and no
    /// outstanding transfer already touches that entry.
    pub open spec fn unpledge_allowed(
        &self,
        campaign_id: u128,
        contributor: String,
        amount: u128,
        now: u64,
    ) -> bool {
        &&& self.has_campaign(campaign_id)
        &&& self.campaign_at(campaign_id).spec_status(now) == Status::Active
        &&& amount > 0
        &&& match find_entry(self.campaign_at(campaign_id).contributors@, contributor@) {
            Some(i) => self.campaign_at(campaign_id).contributors@[i].amount >= amount,
            None => false,
        }
        &&& !self.spec_pending_touches(campaign_id, contributor@)
        &&& self.next_operation_id < u64::MAX
    }

    /// Starts taking a pledge back. The decrement is tentative: the committed
    /// ledger changes only once the outbound transfer of the amount in the
    /// incoming token is confirmed.
    pub fn unpledge(
        &mut self,
        campaign_id: u128,
        contributor: &String,
        amount: u128,
        now: u64,
    ) -> (r: Result<TransferRequest, Error>)
        requires
            old(self).wf(),
        ensures
            final(self).wf(),
            r is Err ==> *final(self) == *old(self),
            r is Ok <==> old(self).unpledge_allowed(campaign_id, *contributor, amount, now),
            !old(self).has_campaign(campaign_id) ==> r == Err::<TransferRequest, Error>(
                Error::NotFound,
            ),
            old(self).has_campaign(campaign_id) && old(self).campaign_at(campaign_id).spec_status(
                now,
            ) != Status::Active ==> r == Err::<TransferRequest, Error>(Error::InvalidTransition),
            r is Ok ==> {
                let t = r.unwrap();
                &&& t.operation_id == old(self).next_operation_id
                &&& t.receiver_id == *contributor
                &&& t.token_id == old(self).campaign_at(campaign_id).incoming_token_id
                &&& t.amount == amount
                &&& final(self).pending@ == old(self).pending@.push(
                    PendingTransfer {
                        operation_id: t.operation_id,
                        campaign_id,
                        account: *contributor,
                        kind: PendingKind::Unpledge,
                        token_id: t.token_id,
                        amount,
                    },
                )
                &&& final(self).campaigns == old(self).campaigns
                &&& final(self).total_campaigns == old(self).total_campaigns
                &&& final(self).total_contributions == old(self).total_contributions
                &&& final(self).next_operation_id == old(self).next_operation_id + 1
            },
    {
        if campaign_id >= self.campaigns.len() as u128 {
            return Err(Error::NotFound);
        }
        let i = campaign_id as usize;
        let st = self.campaigns[i].status(now);
        if !(st == Status::Active) {
            return Err(Error::InvalidTransition);
        }
        if amount == 0 {
            return Err(Error::Validation(Field::Amount));
        }
        let ei = match find_contribution(&self.campaigns[i].contributors, contributor) {
            Some(e) => e,
            None => {
                return Err(Error::NotFound);
            },
        };
        proof {
            lemma_find_entry(self.campaigns@[i as int].contributors@, contributor@);
        }
        if self.pending_touches(campaign_id, contributor) {
            return Err(Error::InvalidTransition);
        }
        if self.campaigns[i].contributors[ei].amount < amount {
            return Err(Error::InsufficientBalance);
        }
        if self.next_operation_id == u64::MAX {
            return Err(Error::InvalidTransition);
        }
        let record = PendingTransfer {
            operation_id: self.next_operation_id,
            campaign_id,
            account: contributor.clone(),
            kind: PendingKind::Unpledge,
            token_id: self.campaigns[i].incoming_token_id.clone(),
            amount,
        };
        let t = self.push_pending(record, contributor.clone());
        Ok(t)
    }
}

impl NearIDO {
    /// The conditions under which a withdrawal starts: the owner calls, the
    /// round resolved Successful, nothing was withdrawn yet, and no
    /// outstanding transfer could still change the raised amount.
    pub open spec fn withdraw_allowed(&self, campaign_id: u128, caller: String, now: u64) -> bool {
        &&& self.has_campaign(campaign_id)
        &&& caller@ == self.campaign_at(campaign_id).owner_id@
        &&& self.campaign_at(campaign_id).spec_status(now) == Status::Successful
        &&& !self.campaign_at(campaign_id).withdrawn
        &&& !self.spec_pending_withdraw(campaign_id)
        &&& !self.spec_pending_debit(campaign_id)
        &&& self.next_operation_id < u64::MAX
    }

    /// Starts the owner's withdrawal of the full raised amount in the
    /// outgoing token. The withdrawn flag is set only on confirmation, and a
    /// second attempt - before or after confirmation - fails with
    /// InvalidTransition rather than re-issuing a transfer.
    pub fn withdraw(&mut self, campaign_id: u128, caller: &String, now: u64) -> (r: Result<
        TransferRequest,
        Error,
    >)
        requires
            old(self).wf(),
        ensures
            final(self).wf(),
            r is Err ==> *final(self) == *old(self),
            r is Ok <==> old(self).withdraw_allowed(campaign_id, *caller, now),
            !old(self).has_campaign(campaign_id) ==> r == Err::<TransferRequest, Error>(
                Error::NotFound,
            ),
            old(self).has_campaign(campaign_id) && caller@ != old(self).campaign_at(
                campaign_id,
            ).owner_id@ ==> r == Err::<TransferRequest, Error>(Error::Unauthorized),
            old(self).has_campaign(campaign_id) && caller@ == old(self).campaign_at(
                campaign_id,
            ).owner_id@ && (old(self).campaign_at(campaign_id).spec_status(now)
                != Status::Successful || old(self).campaign_at(campaign_id).withdrawn || old(
                self,
            ).spec_pending_withdraw(campaign_id)) ==> r == Err::<TransferRequest, Error>(
                Error::InvalidTransition,
            ),
            r is Ok ==> {
                let t = r.unwrap();
                &&& t.operation_id == old(self).next_operation_id
                &&& t.receiver_id == *caller
                &&& t.token_id == old(self).campaign_at(campaign_id).outgoing_token_id
                &&& t.amount == old(self).campaign_at(campaign_id).raised
                &&& final(self).pending@ == old(self).pending@.push(
                    PendingTransfer {
                        operation_id: t.operation_id,
                        campaign_id,
                        account: *caller,
                        kind: PendingKind::Withdraw,
                        token_id: t.token_id,
                        amount: t.amount,
                    },
                )
                &&& final(self).spec_pending_withdraw(campaign_id)
                &&& final(self).campaigns == old(self).campaigns
                &&& final(self).total_campaigns == old(self).total_campaigns
                &&& final(self).total_contributions == old(self).total_contributions
                &&& final(self).next_operation_id == old(self).next_operation_id + 1
            },
    {
        if campaign_id >= self.campaigns.len() as u128 {
            return Err(Error::NotFound);
        }
        let i = campaign_id as usize;
        if !caller.eq(&self.campaigns[i].owner_id) {
            return Err(Error::Unauthorized);
        }
        let st = self.campaigns[i].status(now);
        if !(st == Status::Successful) {
            return Err(Error::InvalidTransition);
        }
        if self.campaigns[i].withdrawn {
            return Err(Error::InvalidTransition);
        }
        if self.pending_withdraw(campaign_id) {
            return Err(Error::InvalidTransition);
        }
        if self.pending_debit(campaign_id) {
            return Err(Error::InvalidTransition);
        }
        if self.next_operation_id == u64::MAX {
            return Err(Error::InvalidTransition);
        }
        let record = PendingTransfer {
            operation_id: self.next_operation_id,
            campaign_id,
            account: caller.clone(),
            kind: PendingKind::Withdraw,
            token_id: self.campaigns[i].outgoing_token_id.clone(),
            amount: self.campaigns[i].raised,
        };
        let t = self.push_pending(record, caller.clone());
        proof {
            assert(self.pending@[self.pending@.len() - 1] == record);
        }
        Ok(t)
    }

    /// The conditions under which a refund starts: the round resolved
    /// Expired, the caller holds a positive balance, and no outstanding
    /// transfer already touches that entry.
    pub open spec fn refund_allowed(&self, campaign_id: u128, caller: String, now: u64) -> bool {
        &&& self.has_campaign(campaign_id)
        &&& self.campaign_at(campaign_id).spec_status(now) == Status::Expired
        &&& match find_entry(self.campaign_at(campaign_id).contributors@, caller@) {
            Some(i) => self.campaign_at(campaign_id).contributors@[i].amount > 0,
            None => false,
        }
        &&& !self.spec_pending_touches(campaign_id, caller@)
        &&& self.next_operation_id < u64::MAX
    }

    /// Starts refunding the caller's full recorded balance in the incoming
    /// token. The ledger entry is zeroed only on confirmation.
    pub fn refund(&mut self, campaign_id: u128, caller: &String, now: u64) -> (r: Result<
        TransferRequest,
        Error,
    >)
        requires
            old(self).wf(),
        ensures
            final(self).wf(),
            r is Err ==> *final(self) == *old(self),
            r is Ok <==> old(self).refund_allowed(campaign_id, *caller, now),
            !old(self).has_campaign(campaign_id) ==> r == Err::<TransferRequest, Error>(
                Error::NotFound,
            ),
            old(self).has_campaign(campaign_id) && old(self).campaign_at(campaign_id).spec_status(
                now,
            ) != Status::Expired ==> r == Err::<TransferRequest, Error>(Error::InvalidTransition),
            r is Ok ==> {
                let t = r.unwrap();
                let e = find_entry(
                    old(self).campaign_at(campaign_id).contributors@,
                    caller@,
                ).unwrap();
                &&& t.operation_id == old(self).next_operation_id
                &&& t.receiver_id == *caller
                &&& t.token_id == old(self).campaign_at(campaign_id).incoming_token_id
                &&& t.amount == old(self).campaign_at(campaign_id).contributors@[e].amount
                &&& final(self).pending@ == old(self).pending@.push(
                    PendingTransfer {
                        operation_id: t.operation_id,
                        campaign_id,
                        account: *caller,
                        kind: PendingKind::Refund,
                        token_id: t.token_id,
                        amount: t.amount,
                    },
                )
                &&& final(self).campaigns == old(self).campaigns
                &&& final(self).total_campaigns == old(self).total_campaigns
                &&& final(self).total_contributions == old(self).total_contributions
                &&& final(self).next_operation_id == old(self).next_operation_id + 1
            },
    {
        if campaign_id >= self.campaigns.len() as u128 {
            return Err(Error::NotFound);
        }
        let i = campaign_id as usize;
        let st = self.campaigns[i].status(now);
        if !(st == Status::Expired) {
            return Err(Error::InvalidTransition);
        }
        let ei = match find_contribution(&self.campaigns[i].contributors, caller) {
            Some(e) => e,
            None => {
                return Err(Error::NotFound);
            },
        };
        proof {
            lemma_find_entry(self.campaigns@[i as int].contributors@, caller@);
        }
        if self.pending_touches(campaign_id, caller) {
            return Err(Error::InvalidTransition);
        }
        let balance = self.campaigns[i].contributors[ei].amount;
        if balance == 0 {
            return Err(Error::InsufficientBalance);
        }
        if self.next_operation_id == u64::MAX {
            return Err(Error::InvalidTransition);
        }
        let record = PendingTransfer {
            operation_id: self.next_operation_id,
            campaign_id,
            account: caller.clone(),
            kind: PendingKind::Refund,
            token_id: self.campaigns[i].incoming_token_id.clone(),
            amount: balance,
        };
        let t = self.push_pending(record, caller.clone());
        Ok(t)
    }

    /// The conditions under which a claim starts: the tokens differ, the
    /// round resolved Successful, the caller's pledge is unclaimed, nothing
    /// outstanding touches the entry, and the entitlement product fits.
    pub open spec fn claim_allowed(
        &self,
        campaign_id: u128,
        caller: String,
        outgoing_available: u128,
        now: u64,
    ) -> bool {
        &&& self.has_campaign(campaign_id)
        &&& self.campaign_at(campaign_id).incoming_token_id@ != self.campaign_at(
            campaign_id,
        ).outgoing_token_id@
        &&& self.campaign_at(campaign_id).spec_status(now) == Status::Successful
        &&& match find_entry(self.campaign_at(campaign_id).contributors@, caller@) {
            Some(i) => !self.campaign_at(campaign_id).contributors@[i].claimed,
            None => false,
        }
        &&& !self.spec_pending_touches(campaign_id, caller@)
        &&& match find_entry(self.campaign_at(campaign_id).contributors@, caller@) {
            Some(i) => self.campaign_at(campaign_id).contributors@[i].amount * outgoing_available
                <= u128::MAX,
            None => false,
        }
        &&& self.next_operation_id < u64::MAX
    }

    /// Converts the caller's pledge into an entitlement of
    /// `floor(pledge_amount * outgoing_available / raised)` outgoing tokens
    /// and starts the transfer; the integer truncation is intentional, and
    /// residual dust is never distributed. Disabled when the outgoing token
    /// is the incoming one, since withdraw and refund already move it.
    pub fn claim(
        &mut self,
        campaign_id: u128,
        caller: &String,
        outgoing_available: u128,
        now: u64,
    ) -> (r: Result<TransferRequest, Error>)
        requires
            old(self).wf(),
        ensures
            final(self).wf(),
            r is Err ==> *final(self) == *old(self),
            r is Ok <==> old(self).claim_allowed(campaign_id, *caller, outgoing_available, now),
            !old(self).has_campaign(campaign_id) ==> r == Err::<TransferRequest, Error>(
                Error::NotFound,
            ),
            old(self).has_campaign(campaign_id) && old(self).campaign_at(
                campaign_id,
            ).incoming_token_id@ == old(self).campaign_at(campaign_id).outgoing_token_id@ ==> r
                == Err::<TransferRequest, Error>(Error::InvalidTransition),
            r is Ok ==> {
                let t = r.unwrap();
                let e = find_entry(
                    old(self).campaign_at(campaign_id).contributors@,
                    caller@,
                ).unwrap();
                &&& t.operation_id == old(self).next_operation_id
                &&& t.receiver_id == *caller
                &&& t.token_id == old(self).campaign_at(campaign_id).outgoing_token_id
                &&& t.amount == old(self).campaign_at(campaign_id).contributors@[e].amount
                    * outgoing_available / (old(self).campaign_at(campaign_id).raised as int)
                &&& final(self).pending@ == old(self).pending@.push(
                    PendingTransfer {
                        operation_id: t.operation_id,
                        campaign_id,
                        account: *caller,
                        kind: PendingKind::Claim,
                        token_id: t.token_id,
                        amount: t.amount,
                    },
                )
                &&& final(self).campaigns == old(self).campaigns
                &&& final(self).total_campaigns == old(self).total_campaigns
                &&& final(self).total_contributions == old(self).total_contributions
                &&& final(self).next_operation_id == old(self).next_operation_id + 1
            },
    {
        if campaign_id >= self.campaigns.len() as u128 {
            return Err(Error::NotFound);
        }
        let i = campaign_id as usize;
        if self.campaigns[i].incoming_token_id.eq(&self.campaigns[i].outgoing_token_id) {
            return Err(Error::InvalidTransition);
        }
        let st = self.campaigns[i].status(now);
        if !(st == Status::Successful) {
            return Err(Error::InvalidTransition);
        }
        let ei = match find_contribution(&self.campaigns[i].contributors, caller) {
            Some(e) => e,
            None => {
                return Err(Error::NotFound);
            },
        };
        proof {
            lemma_find_entry(self.campaigns@[i as int].contributors@, caller@);
        }
        if self.campaigns[i].contributors[ei].claimed {
            return Err(Error::InvalidTransition);
        }
        if self.pending_touches(campaign_id, caller) {
            return Err(Error::InvalidTransition);
        }
        let product = match self.campaigns[i].contributors[ei].amount.checked_mul(
            outgoing_available,
        ) {
            Some(p) => p,
            None => {
                return Err(Error::Validation(Field::Amount));
            },
        };
        if self.next_operation_id == u64::MAX {
            return Err(Error::InvalidTransition);
        }
        let entitlement = product / self.campaigns[i].raised;
        let record = PendingTransfer {
            operation_id: self.next_operation_id,
            campaign_id,
            account: caller.clone(),
            kind: PendingKind::Claim,
            token_id: self.campaigns[i].outgoing_token_id.clone(),
            amount: entitlement,
        };
        let t = self.push_pending(record, caller.clone());
        Ok(t)
    }
}

impl NearIDO {
    /// Handles the confirmation event of an outstanding transfer: commits
    /// the pending delta to the ledger and clears the record. Unknown
    /// operation ids - including one already confirmed or failed - are
    /// rejected, so a delayed or duplicated event can never commit twice.
    pub fn on_transfer_confirmed(&mut self, operation_id: u64) -> (r: Result<(), Error>)
        requires
            old(self).wf(),
        ensures
            final(self).wf(),
            r is Err ==> *final(self) == *old(self) && r == Err::<(), Error>(Error::NotFound)
                && find_pending(old(self).pending@, operation_id) is None,
            r is Ok ==> {
                let pi = find_pending(old(self).pending@, operation_id).unwrap();
                let p = old(self).pending@[pi];
                &&& find_pending(old(self).pending@, operation_id) is Some
                &&& final(self).pending@ == old(self).pending@.remove(pi)
                &&& final(self).campaigns@.len() == old(self).campaigns@.len()
                &&& forall|k: int|
                    0 <= k < old(self).campaigns@.len() && k != p.campaign_id as int
                        ==> final(self).campaigns@[k] == old(self).campaigns@[k]
                &&& delta_applied(
                    old(self).campaign_at(p.campaign_id),
                    final(self).campaign_at(p.campaign_id),
                    p,
                )
                &&& final(self).total_campaigns == old(self).total_campaigns
                &&& final(self).total_contributions == old(self).total_contributions - (
                if p.kind == PendingKind::Unpledge || p.kind == PendingKind::Refund {
                    p.amount as int
                } else {
                    0
                })
                &&& final(self).next_operation_id == old(self).next_operation_id
            },
    {
        let pi = match crate::escrow::find_pending_index(&self.pending, operation_id) {
            Some(x) => x,
            None => {
                return Err(Error::NotFound);
            },
        };
        proof {
            lemma_find_pending(self.pending@, operation_id);
        }
        let p = self.pending.remove(pi);
        let n = self.campaigns.len();
        proof {
            assert(pending_record_wf(p, self.campaigns@));
            old(self).pending@.remove_ensures(pi as int);
            assert(p.campaign_id < n as u128);
        }
        let ci = p.campaign_id as usize;
        match p.kind {
            PendingKind::Unpledge | PendingKind::Refund => {
                let ei = match find_contribution(&self.campaigns[ci].contributors, &p.account) {
                    Some(e) => e,
                    None => {
                        proof {
                            lemma_find_entry(self.campaigns@[ci as int].contributors@, p.account@);
                            assert(false);
                        }
                        return Err(Error::NotFound);
                    },
                };
                proof {
                    lemma_find_entry(self.campaigns@[ci as int].contributors@, p.account@);
                    lemma_sum_entry_bound(self.campaigns@[ci as int].contributors@, ei as int);
                    lemma_sum_raised_entry_bound(self.campaigns@, ci as int);
                }
                let cur = self.campaigns[ci].contributors[ei].amount;
                self.campaigns[ci].contributors[ei].amount = cur - p.amount;
                let r0 = self.campaigns[ci].raised;
                self.campaigns[ci].raised = r0 - p.amount;
                self.total_contributions = self.total_contributions - p.amount;
                proof {
                    let cs1 = old(self).campaigns@;
                    let cs2 = self.campaigns@;
                    let cid = p.campaign_id as int;
                    assert(cs2 == cs1.update(cid, cs2[cid]));
                    lemma_find_entry(cs1[cid].contributors@, p.account@);
                    let e = find_entry(cs1[cid].contributors@, p.account@).unwrap();
                    lemma_sum_update(cs1[cid].contributors@, e, cs2[cid].contributors@[e]);
                    lemma_sum_raised_update(cs1, cid, cs2[cid]);
                    self.lemma_commit_preserves_pending(*old(self), p, pi as int);
                }
            },
            PendingKind::Withdraw => {
                self.campaigns[ci].withdrawn = true;
                proof {
                    let cs1 = old(self).campaigns@;
                    let cs2 = self.campaigns@;
                    let cid = p.campaign_id as int;
                    assert(cs2 == cs1.update(cid, cs2[cid]));
                    lemma_sum_raised_update(cs1, cid, cs2[cid]);
                    self.lemma_commit_preserves_pending(*old(self), p, pi as int);
                }
            },
            PendingKind::Claim => {
                let ei = match find_contribution(&self.campaigns[ci].contributors, &p.account) {
                    Some(e) => e,
                    None => {
                        proof {
                            lemma_find_entry(self.campaigns@[ci as int].contributors@, p.account@);
                            assert(false);
                        }
                        return Err(Error::NotFound);
                    },
                };
                proof {
                    lemma_find_entry(self.campaigns@[ci as int].contributors@, p.account@);
                }
                self.campaigns[ci].contributors[ei].claimed = true;
                proof {
                    let cs1 = old(self).campaigns@;
                    let cs2 = self.campaigns@;
                    let cid = p.campaign_id as int;
                    assert(cs2 == cs1.update(cid, cs2[cid]));
                    lemma_find_entry(cs1[cid].contributors@, p.account@);
                    let e = find_entry(cs1[cid].contributors@, p.account@).unwrap();
                    lemma_sum_update(cs1[cid].contributors@, e, cs2[cid].contributors@[e]);
                    lemma_sum_raised_update(cs1, cid, cs2[cid]);
                    self.lemma_commit_preserves_pending(*old(self), p, pi as int);
                }
            },
        }
        Ok(())
    }

    /// After one pending record is removed and its delta committed, every
    /// remaining record is still covered: the no-conflict invariant says its
    /// ledger cell was not the one the delta touched.
    proof fn lemma_commit_preserves_pending(&self, pre: NearIDO, p: PendingTransfer, pi: int)
        requires
            pre.wf(),
            0 <= pi < pre.pending@.len(),
            pre.pending@[pi] == p,
            self.pending@ == pre.pending@.remove(pi),
            self.campaigns@.len() == pre.campaigns@.len(),
            forall|k: int|
                0 <= k < pre.campaigns@.len() && k != p.campaign_id as int
                    ==> self.campaigns@[k] == pre.campaigns@[k],
            delta_applied(
                pre.campaigns@[p.campaign_id as int],
                self.campaigns@[p.campaign_id as int],
                p,
            ),
            self.next_operation_id == pre.next_operation_id,
        ensures
            self.pending_wf(),
    {
        let ps1 = pre.pending@;
        let ps2 = self.pending@;
        let cs1 = pre.campaigns@;
        let cs2 = self.campaigns@;
        let cid = p.campaign_id as int;
        let c = cs1[cid];
        let d = cs2[cid];
        ps1.remove_ensures(pi);
        assert forall|a: int| 0 <= a < ps2.len() implies {
            &&& pending_record_wf(#[trigger] ps2[a], cs2)
            &&& ps2[a].operation_id < self.next_operation_id
        } by {
            let a1: int = if a < pi {
                a
            } else {
                a + 1
            };
            let q = ps1[a1];
            assert(ps2[a] == q);
            assert(pending_record_wf(q, cs1));
            if a1 < pi {
                assert(!conflicts(ps1[a1], ps1[pi]));
            } else {
                assert(!conflicts(ps1[pi], ps1[a1]));
            }
            crate::escrow::lemma_conflicts_symmetric(p, q);
            assert(!conflicts(p, q) && !conflicts(q, p));
            if q.campaign_id as int != cid {
                assert(cs2[q.campaign_id as int] == cs1[q.campaign_id as int]);
            } else {
                if p.kind == PendingKind::Withdraw {
                    // Only the withdrawn flag changed; q is no withdrawal.
                    assert(q.kind != PendingKind::Withdraw);
                    lemma_find_entry(c.contributors@, q.account@);
                    lemma_find_entry_same_accounts(c.contributors@, d.contributors@, q.account@);
                } else {
                    lemma_find_entry(c.contributors@, p.account@);
                    let i = find_entry(c.contributors@, p.account@).unwrap();
                    if q.kind == PendingKind::Withdraw {
                        assert(d.withdrawn == c.withdrawn && d.owner_id == c.owner_id);
                    } else {
                        // Entries at other accounts are untouched.
                        assert(q.account@ != p.account@);
                        lemma_find_entry(c.contributors@, q.account@);
                        lemma_find_entry_same_accounts(
                            c.contributors@,
                            d.contributors@,
                            q.account@,
                        );
                        let j = find_entry(c.contributors@, q.account@).unwrap();
                        assert(c.contributors@[j].account@ == q.account@);
                        assert(j != i);
                        assert(d.contributors@[j] == c.contributors@[j]);
                    }
                }
            }
        }
        assert forall|a: int, b: int| 0 <= a < b < ps2.len() implies ps2[a].operation_id
            != ps2[b].operation_id && !conflicts(ps2[a], ps2[b]) by {
            let a1: int = if a < pi {
                a
            } else {
                a + 1
            };
            let b1: int = if b < pi {
                b
            } else {
                b + 1
            };
            assert(ps2[a] == ps1[a1]);
            assert(ps2[b] == ps1[b1]);
        }
    }

    /// Handles the failure or timeout event of an outstanding transfer: the
    /// pending delta is discarded, and the committed ledger is left exactly
    /// as it was before the transfer was requested - no silent fund loss,
    /// no partial rollback.
    pub fn on_transfer_failed(&mut self, operation_id: u64) -> (r: Result<(), Error>)
        requires
            old(self).wf(),
        ensures
            final(self).wf(),
            final(self).campaigns == old(self).campaigns,
            final(self).total_campaigns == old(self).total_campaigns,
            final(self).total_contributions == old(self).total_contributions,
            final(self).next_operation_id == old(self).next_operation_id,
            r is Err ==> *final(self) == *old(self) && r == Err::<(), Error>(Error::NotFound)
                && find_pending(old(self).pending@, operation_id) is None,
            r is Ok ==> {
                let pi = find_pending(old(self).pending@, operation_id).unwrap();
                &&& find_pending(old(self).pending@, operation_id) is Some
                &&& final(self).pending@ == old(self).pending@.remove(pi)
            },
    {
        let pi = match crate::escrow::find_pending_index(&self.pending, operation_id) {
            Some(x) => x,
            None => {
                return Err(Error::NotFound);
            },
        };
        proof {
            lemma_find_pending(self.pending@, operation_id);
        }
        let _discarded = self.pending.remove(pi);
        proof {
            let ps1 = old(self).pending@;
            let ps2 = self.pending@;
            ps1.remove_ensures(pi as int);
            assert forall|a: int| 0 <= a < ps2.len() implies {
                &&& pending_record_wf(#[trigger] ps2[a], self.campaigns@)
                &&& ps2[a].operation_id < self.next_operation_id
            } by {
                let a1: int = if a < pi as int {
                    a
                } else {
                    a + 1
                };
                assert(ps2[a] == ps1[a1]);
            }
            assert forall|a: int, b: int| 0 <= a < b < ps2.len() implies ps2[a].operation_id
                != ps2[b].operation_id && !conflicts(ps2[a], ps2[b]) by {
                let a1: int = if a < pi as int {
                    a
                } else {
                    a + 1
                };
                let b1: int = if b < pi as int {
                    b
                } else {
                    b + 1
                };
                assert(ps2[a] == ps1[a1]);
                assert(ps2[b] == ps1[b1]);
            }
        }
        Ok(())
    }
}

impl NearIDO {
    /// Entry point for an inbound token transfer: sender, attached amount,
    /// and the message the gateway decoded, `None` when it could not. A
    /// missing payload or an unknown tag fails the whole transfer with
    /// MessageParseError - the amount is never silently absorbed, and no
    /// counter moves. A CreateCampaign message creates the campaign with the
    /// attached deposit as the sender's first pledge; the result is the
    /// unused amount, zero on success.
    pub fn ft_on_transfer(
        &mut self,
        sender_id: String,
        amount: u128,
        msg: Option<Request>,
        now: u64,
    ) -> (r: Result<u128, Error>)
        requires
            old(self).wf(),
        ensures
            final(self).wf(),
            r is Err ==> *final(self) == *old(self),
            msg is None ==> r == Err::<u128, Error>(Error::MessageParseError),
            msg is Some && msg.unwrap().spec_kind() == Kind::Unknown ==> r == Err::<u128, Error>(
                Error::MessageParseError,
            ),
            msg is Some && msg.unwrap().spec_kind() == Kind::CreateCampaign
                && msg.unwrap().spec_campaign() is None ==> r == Err::<u128, Error>(
                Error::MessageParseError,
            ),
            r is Ok <==> msg is Some && msg.unwrap().spec_kind() == Kind::CreateCampaign
                && msg.unwrap().spec_campaign() is Some && {
                let ci = msg.unwrap().spec_campaign().unwrap();
                old(self).create_valid(
                    sender_id,
                    ci.name,
                    ci.goal,
                    ci.incoming_token_id,
                    ci.outgoing_token_id,
                    amount,
                    ci.start_time,
                    ci.end_time,
                    now,
                )
            },
            r is Ok ==> {
                let ci = msg.unwrap().spec_campaign().unwrap();
                &&& r == Ok::<u128, Error>(0)
                &&& final(self).total_campaigns == old(self).total_campaigns + 1
                &&& final(self).total_contributions == old(self).total_contributions + amount
                &&& final(self).campaigns@.len() == old(self).campaigns@.len() + 1
                &&& forall|k: int|
                    0 <= k < old(self).campaigns@.len() ==> final(self).campaigns@[k] == old(
                        self,
                    ).campaigns@[k]
                &&& created_campaign(
                    final(self).campaigns@.last(),
                    sender_id,
                    ci.name,
                    ci.goal,
                    ci.incoming_token_id,
                    ci.outgoing_token_id,
                    amount,
                    ci.start_time,
                    ci.end_time,
                )
                &&& final(self).pending == old(self).pending
                &&& final(self).next_operation_id == old(self).next_operation_id
            },
    {
        let req = match msg {
            Some(m) => m,
            None => {
                return Err(Error::MessageParseError);
            },
        };
        match *req.kind() {
            Kind::CreateCampaign => {
                let ci = match req.campaign() {
                    Some(c) => c,
                    None => {
                        return Err(Error::MessageParseError);
                    },
                };
                match self.internal_create_campaign(
                    sender_id,
                    ci.name,
                    ci.goal,
                    ci.incoming_token_id,
                    ci.outgoing_token_id,
                    amount,
                    ci.start_time,
                    ci.end_time,
                    now,
                ) {
                    Ok(_campaign_id) => Ok(0),
                    Err(e) => Err(e),
                }
            },
            Kind::Unknown => Err(Error::MessageParseError),
        }
    }
}

/// Per-campaign conservation: with every pending delta kept out of committed
/// state until its transfer confirms, the raised amount equals the sum of
/// the recorded contributor balances at all times - in particular whenever
/// no transfer is pending.
pub proof fn lemma_raised_equals_balances(s: NearIDO, campaign_id: u128)
    requires
        s.wf(),
        s.has_campaign(campaign_id),
    ensures
        s.campaign_at(campaign_id).raised == sum_contributions(
            s.campaign_at(campaign_id).contributors@,
        ),
{
}

/// Global conservation: the total-contributions counter equals the sum of
/// the raised amounts over all campaigns, at every quiescent point.
pub proof fn lemma_total_equals_sum_raised(s: NearIDO)
    requires
        s.wf(),
    ensures
        s.total_contributions == sum_raised(s.campaigns@),
{
}

/// A withdrawal never succeeds twice: once a withdrawal is outstanding or
/// was confirmed, every further withdraw call on that campaign is rejected,
/// whoever calls and whatever the time.
pub proof fn lemma_withdraw_only_once(s: NearIDO, campaign_id: u128, caller: String, now: u64)
    requires
        s.wf(),
        s.has_campaign(campaign_id),
        s.campaign_at(campaign_id).withdrawn || s.spec_pending_withdraw(campaign_id),
    ensures
        !s.withdraw_allowed(campaign_id, caller, now),
{
}

/// After the end of the window a campaign no longer resolves Active, so a
/// pledge is rejected whatever the goal progress.
pub proof fn lemma_no_pledge_after_end(s: NearIDO, campaign_id: u128, amount: u128, now: u64)
    requires
        s.wf(),
        s.has_campaign(campaign_id),
        now >= s.campaign_at(campaign_id).end_time,
    ensures
        !s.pledge_allowed(campaign_id, amount, now),
{
}

/// The shape of a freshly created record: goal and window as requested,
/// active, nothing withdrawn, and the owner's deposit as the one entry of the
/// contributor ledger.
pub open spec fn created_campaign(
    c: Campaign,
    owner_id: String,
    name: String,
    goal: u128,
    incoming_token_id: String,
    outgoing_token_id: String,
    initial_amount: u128,
    start_time: u64,
    end_time: u64,
) -> bool {
    &&& c.name == name
    &&& c.goal == goal
    &&& c.raised == initial_amount
    &&& c.is_active == true
    &&& c.cancelled == false
    &&& c.withdrawn == false
    &&& c.owner_id == owner_id
    &&& c.contributors@.len() == 1
    &&& c.contributors@[0].account@ == owner_id@
    &&& c.contributors@[0].amount == initial_amount
    &&& c.contributors@[0].claimed == false
    &&& c.incoming_token_id == incoming_token_id
    &&& c.outgoing_token_id == outgoing_token_id
    &&& c.start_time == start_time
    &&& c.end_time == end_time
}

} // verus!
