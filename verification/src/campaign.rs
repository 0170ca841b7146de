use vstd::prelude::*;

verus! {

/// The logical status of a campaign, recomputed lazily from its stored fields
/// and the current time at the start of every mutating operation.
#[derive(Clone, Copy, Debug, PartialEq, Eq, Structural)]
pub enum Status {
    /// Still inside its time window and not cancelled: pledges may arrive.
    Active,
    /// The window elapsed with the goal met: the owner may withdraw.
    Successful,
    /// The window elapsed with the goal unmet, or the owner cancelled:
    /// contributors may take their balances back.
    Expired,
    /// Terminal: every balance is settled; no path returns to Active.
    Closed,
}

/// One contributor's recorded balance in a campaign.
#[derive(Clone, Debug, PartialEq, Eq)]
pub struct Contribution {
    pub account: String,
    /// Pledged amount, in minor units of the incoming token.
    pub amount: u128,
    /// Whether the pledge was already converted into an outgoing-token
    /// entitlement after a successful round.
    pub claimed: bool,
}

/// One funding round: a goal, a time window, an owner, token identities, and
/// the per-contributor ledger.
#[derive(Clone, Debug, PartialEq, Eq)]
pub struct Campaign {
    pub name: String,
    pub goal: u128,
    /// Sum of all recorded contributor balances; decreases only via a
    /// confirmed outbound transfer, never optimistically.
    pub raised: u128,
    /// Owner toggle: while false, no new pledges are accepted.
    pub is_active: bool,
    /// Set once by `cancel`; never cleared.
    pub cancelled: bool,
    /// Set once when the owner's withdrawal of a successful round confirms.
    pub withdrawn: bool,
    pub owner_id: String,
    pub contributors: Vec<Contribution>,
    /// Asset accepted as pledges.
    pub incoming_token_id: String,
    /// Asset paid out; may differ from the incoming one.
    pub outgoing_token_id: String,
    pub start_time: u64,
    pub end_time: u64,
}

/// Sum of the recorded contributor balances, as an unbounded integer.
pub open spec fn sum_contributions(s: Seq<Contribution>) -> int
    decreases s.len(),
{
    if s.len() == 0 {
        0
    } else {
        s[0].amount + sum_contributions(s.drop_first())
    }
}

/// No account owns two ledger entries of one campaign.
pub open spec fn unique_accounts(s: Seq<Contribution>) -> bool {
    forall|i: int, j: int| 0 <= i < j < s.len() ==> s[i].account@ != s[j].account@
}

/// The first ledger entry of the given account, if any.
pub open spec fn find_entry(s: Seq<Contribution>, account: Seq<char>) -> Option<int>
    decreases s.len(),
{
    if s.len() == 0 {
        None
    } else if s[0].account@ == account {
        Some(0)
    } else {
        match find_entry(s.drop_first(), account) {
            Some(i) => Some(i + 1),
            None => None,
        }
    }
}

/// Every contributor balance is zero.
pub open spec fn all_settled(s: Seq<Contribution>) -> bool {
    forall|i: int| 0 <= i < s.len() ==> (#[trigger] s[i]).amount == 0
}

/// Every pledge was converted into an outgoing-token entitlement.
pub open spec fn all_claimed(s: Seq<Contribution>) -> bool {
    forall|i: int| 0 <= i < s.len() ==> (#[trigger] s[i]).claimed
}

pub proof fn lemma_sum_push(s: Seq<Contribution>, c: Contribution)
    ensures
        sum_contributions(s.push(c)) == sum_contributions(s) + c.amount,
    decreases s.len(),
{
    if s.len() == 0 {
        assert(s.push(c).drop_first() =~= s);
    } else {
        assert(s.push(c).drop_first() =~= s.drop_first().push(c));
        lemma_sum_push(s.drop_first(), c);
    }
}

pub proof fn lemma_sum_update(s: Seq<Contribution>, i: int, c: Contribution)
    requires
        0 <= i < s.len(),
    ensures
        sum_contributions(s.update(i, c)) == sum_contributions(s) - s[i].amount + c.amount,
    decreases s.len(),
{
    if i == 0 {
        assert(s.update(0, c).drop_first() =~= s.drop_first());
    } else {
        assert(s.update(i, c).drop_first() =~= s.drop_first().update(i - 1, c));
        lemma_sum_update(s.drop_first(), i - 1, c);
    }
}

/// Each single balance is bounded by the sum of all of them.
pub proof fn lemma_sum_entry_bound(s: Seq<Contribution>, i: int)
    requires
        0 <= i < s.len(),
    ensures
        sum_contributions(s) >= s[i].amount,
    decreases s.len(),
{
    lemma_sum_nonneg(s.drop_first());
    if i > 0 {
        lemma_sum_entry_bound(s.drop_first(), i - 1);
    }
}

pub proof fn lemma_sum_nonneg(s: Seq<Contribution>)
    ensures
        sum_contributions(s) >= 0,
    decreases s.len(),
{
    if s.len() > 0 {
        lemma_sum_nonneg(s.drop_first());
    }
}

/// What `find_entry` promises: a found index is the first entry naming the
/// account, and `None` means no entry names it.
pub proof fn lemma_find_entry(s: Seq<Contribution>, account: Seq<char>)
    ensures
        match find_entry(s, account) {
            Some(i) => 0 <= i < s.len() && s[i].account@ == account && forall|j: int|
                0 <= j < i ==> (#[trigger] s[j]).account@ != account,
            None => forall|j: int| 0 <= j < s.len() ==> (#[trigger] s[j]).account@ != account,
        },
    decreases s.len(),
{
    if s.len() > 0 && s[0].account@ != account {
        lemma_find_entry(s.drop_first(), account);
        match find_entry(s.drop_first(), account) {
            Some(i) => {
                assert(s.drop_first()[i] == s[i + 1]);
                assert forall|j: int| 0 <= j < i + 1 implies (#[trigger] s[j]).account@
                    != account by {
                    if j > 0 {
                        assert(s.drop_first()[j - 1] == s[j]);
                    }
                }
            },
            None => {
                assert forall|j: int| 0 <= j < s.len() implies (#[trigger] s[j]).account@
                    != account by {
                    if j > 0 {
                        assert(s.drop_first()[j - 1] == s[j]);
                    }
                }
            },
        }
    }
}

/// Looks a contributor up in the ledger of one campaign.
pub fn find_contribution(s: &Vec<Contribution>, account: &String) -> (r: Option<usize>)
    ensures
        match r {
            Some(i) => Some(i as int) == find_entry(s@, account@),
            None => find_entry(s@, account@) is None,
        },
{
    let mut i: usize = 0;
    while i < s.len()
        invariant
            0 <= i <= s@.len(),
            forall|j: int| 0 <= j < i ==> (#[trigger] s@[j]).account@ != account@,
        decreases s@.len() - i,
    {
        if s[i].account.eq(account) {
            proof {
                lemma_find_entry_prefix(s@, account@, i as int);
            }
            return Some(i);
        }
        i = i + 1;
    }
    proof {
        lemma_find_entry(s@, account@);
        if find_entry(s@, account@) is Some {
            let w = find_entry(s@, account@).unwrap();
            assert(s@[w].account@ != account@);
        }
    }
    None
}

/// If every entry before `i` misses the account and entry `i` hits it, then
/// `find_entry` returns `i`.
pub proof fn lemma_find_entry_prefix(s: Seq<Contribution>, account: Seq<char>, i: int)
    requires
        0 <= i < s.len(),
        s[i].account@ == account,
        forall|j: int| 0 <= j < i ==> (#[trigger] s[j]).account@ != account,
    ensures
        find_entry(s, account) == Some(i),
    decreases s.len(),
{
    if i > 0 {
        assert forall|j: int| 0 <= j < i - 1 implies (#[trigger] s.drop_first()[j]).account@
            != account by {
            assert(s.drop_first()[j] == s[j + 1]);
        }
        assert(s.drop_first()[i - 1] == s[i]);
        lemma_find_entry_prefix(s.drop_first(), account, i - 1);
    }
}

/// `find_entry` looks only at account names, so any change that keeps every
/// account in place keeps its result.
pub proof fn lemma_find_entry_same_accounts(s1: Seq<Contribution>, s2: Seq<Contribution>, a: Seq<char>)
    requires
        s1.len() == s2.len(),
        forall|k: int| 0 <= k < s1.len() ==> (#[trigger] s2[k]).account@ == s1[k].account@,
    ensures
        find_entry(s2, a) == find_entry(s1, a),
    decreases s1.len(),
{
    if s1.len() > 0 {
        assert forall|k: int| 0 <= k < s1.drop_first().len() implies (#[trigger] s2.drop_first()[k]).account@
            == s1.drop_first()[k].account@ by {
            assert(s1.drop_first()[k] == s1[k + 1]);
            assert(s2.drop_first()[k] == s2[k + 1]);
        }
        lemma_find_entry_same_accounts(s1.drop_first(), s2.drop_first(), a);
    }
}

/// How one pledge changes a campaign record: the contributor's entry and the
/// raised amount both grow by the pledged amount; every other field is kept.
pub open spec fn pledge_applied(c: Campaign, d: Campaign, account: String, amount: u128) -> bool {
    &&& d.name == c.name
    &&& d.goal == c.goal
    &&& d.is_active == c.is_active
    &&& d.cancelled == c.cancelled
    &&& d.withdrawn == c.withdrawn
    &&& d.owner_id == c.owner_id
    &&& d.incoming_token_id == c.incoming_token_id
    &&& d.outgoing_token_id == c.outgoing_token_id
    &&& d.start_time == c.start_time
    &&& d.end_time == c.end_time
    &&& d.raised == c.raised + amount
    &&& match find_entry(c.contributors@, account@) {
        Some(i) => d.contributors@ == c.contributors@.update(
            i,
            Contribution {
                account: c.contributors@[i].account,
                amount: (c.contributors@[i].amount + amount) as u128,
                claimed: c.contributors@[i].claimed,
            },
        ),
        None => d.contributors@ == c.contributors@.push(
            Contribution { account, amount, claimed: false },
        ),
    }
}

impl Campaign {
    /// Credits a pledge: adds to the contributor's recorded balance (creating
    /// the entry if new) and to the raised amount, in one step.
    pub fn apply_pledge(&mut self, contributor: &String, amount: u128)
        requires
            old(self).wf(),
            sum_contributions(old(self).contributors@) + amount <= u128::MAX,
        ensures
            final(self).wf(),
            pledge_applied(*old(self), *final(self), *contributor, amount),
    {
        proof {
            lemma_find_entry(self.contributors@, contributor@);
        }
        match find_contribution(&self.contributors, contributor) {
            Some(i) => {
                proof {
                    lemma_sum_entry_bound(self.contributors@, i as int);
                }
                let cur = self.contributors[i].amount;
                self.contributors[i].amount = cur + amount;
                self.raised = self.raised + amount;
                proof {
                    let s1 = old(self).contributors@;
                    let s2 = self.contributors@;
                    assert(s2 == s1.update(
                        i as int,
                        Contribution {
                            account: s1[i as int].account,
                            amount: (s1[i as int].amount + amount) as u128,
                            claimed: s1[i as int].claimed,
                        },
                    ));
                    lemma_sum_update(s1, i as int, s2[i as int]);
                }
            },
            None => {
                let entry = Contribution { account: contributor.clone(), amount, claimed: false };
                proof {
                    lemma_sum_push(self.contributors@, entry);
                }
                self.contributors.push(entry);
                self.raised = self.raised + amount;
                proof {
                    let s1 = old(self).contributors@;
                    let s2 = self.contributors@;
                    assert forall|p: int, q: int| 0 <= p < q < s2.len() implies s2[p].account@
                        != s2[q].account@ by {
                        if q == s1.len() {
                            assert(s1[p].account@ != contributor@);
                        }
                    }
                }
            },
        }
    }
}

/// No pledge beyond the owner's own deposit was accepted.
pub open spec fn only_owner_contributions(c: Campaign) -> bool {
    forall|i: int| 0 <= i < c.contributors@.len() ==> (#[trigger] c.contributors@[i]).account@
        == c.owner_id@
}

impl Campaign {
    /// Whether every ledger entry belongs to the owner.
    pub fn only_owner_entries(&self) -> (r: bool)
        ensures
            r == only_owner_contributions(*self),
    {
        let mut i: usize = 0;
        while i < self.contributors.len()
            invariant
                0 <= i <= self.contributors@.len(),
                forall|j: int| 0 <= j < i ==> (#[trigger] self.contributors@[j]).account@
                    == self.owner_id@,
            decreases self.contributors@.len() - i,
        {
            if !self.contributors[i].account.eq(&self.owner_id) {
                return false;
            }
            i = i + 1;
        }
        true
    }
}

impl Campaign {
    /// Structural well-formedness: the fields the registry validates at
    /// creation, plus the conservation equation between `raised` and the
    /// contributor ledger.
    pub open spec fn wf(&self) -> bool {
        &&& 1 <= self.name@.len() <= 64
        &&& self.goal > 0
        &&& self.start_time < self.end_time
        &&& unique_accounts(self.contributors@)
        &&& self.raised == sum_contributions(self.contributors@)
    }

    /// Whether the round ended with its goal met. A cancelled round never
    /// counts as successful, whatever was raised.
    pub open spec fn spec_successful(&self) -> bool {
        !self.cancelled && self.raised >= self.goal
    }

    /// The status the state machine resolves from the stored fields and the
    /// current time. `Active` lasts until cancellation or the end of the
    /// window; afterwards the round is `Successful` or `Expired`, and finally
    /// `Closed` once every balance is settled.
    pub open spec fn spec_status(&self, now: u64) -> Status {
        if !self.cancelled && now < self.end_time {
            Status::Active
        } else if self.spec_successful() {
            if self.withdrawn && (self.incoming_token_id@ == self.outgoing_token_id@
                || all_claimed(self.contributors@)) {
                Status::Closed
            } else {
                Status::Successful
            }
        } else {
            if all_settled(self.contributors@) {
                Status::Closed
            } else {
                Status::Expired
            }
        }
    }

    /// Resolves the campaign's current status.
    pub fn status(&self, now: u64) -> (st: Status)
        ensures
            st == self.spec_status(now),
    {
        if !self.cancelled && now < self.end_time {
            return Status::Active;
        }
        if !self.cancelled && self.raised >= self.goal {
            if self.withdrawn && (self.incoming_token_id == self.outgoing_token_id
                || self.check_all_claimed()) {
                Status::Closed
            } else {
                Status::Successful
            }
        } else {
            if self.check_all_settled() {
                Status::Closed
            } else {
                Status::Expired
            }
        }
    }

    fn check_all_claimed(&self) -> (r: bool)
        ensures
            r == all_claimed(self.contributors@),
    {
        let mut i: usize = 0;
        while i < self.contributors.len()
            invariant
                0 <= i <= self.contributors@.len(),
                forall|j: int| 0 <= j < i ==> (#[trigger] self.contributors@[j]).claimed,
            decreases self.contributors@.len() - i,
        {
            if !self.contributors[i].claimed {
                return false;
            }
            i = i + 1;
        }
        true
    }

    fn check_all_settled(&self) -> (r: bool)
        ensures
            r == all_settled(self.contributors@),
    {
        let mut i: usize = 0;
        while i < self.contributors.len()
            invariant
                0 <= i <= self.contributors@.len(),
                forall|j: int| 0 <= j < i ==> (#[trigger] self.contributors@[j]).amount == 0,
            decreases self.contributors@.len() - i,
        {
            if self.contributors[i].amount != 0 {
                return false;
            }
            i = i + 1;
        }
        true
    }
}

} // verus!
