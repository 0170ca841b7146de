use near_ido::campaign::Status;
use near_ido::errors::Error;
use near_ido::NearIDO;

fn owner() -> String {
    String::from("alice.near")
}

fn bob() -> String {
    String::from("bob.near")
}

fn tok_in() -> String {
    String::from("token-in.near")
}

fn tok_out() -> String {
    String::from("token-out.near")
}

fn setup(goal: u128, initial: u128) -> NearIDO {
    let mut s = NearIDO::new();
    let id = s
        .internal_create_campaign(owner(), String::from("Tin callings"), goal, tok_in(), tok_out(), initial, 10, 100, 0)
        .unwrap();
    assert_eq!(id, 0);
    s
}

#[test]
fn scenario_expired_refunds() {
    // goal 1000, initial deposit 100, window 10..100.
    let mut s = setup(1000, 100);
    assert_eq!(s.pledge(0, &bob(), 50, 20), Ok(()));
    assert_eq!(s.get_campaign(0).unwrap().raised, 150);
    assert_eq!(s.total_contributions, 150);

    // 150 < 1000 at time 150: the round expired.
    assert_eq!(s.get_campaign(0).unwrap().status(150), Status::Expired);

    let t = s.refund(0, &bob(), 150).unwrap();
    assert_eq!(t.amount, 50);
    assert_eq!(t.receiver_id, bob());
    assert_eq!(t.token_id, tok_in());
    assert_eq!(s.on_transfer_confirmed(t.operation_id), Ok(()));
    assert_eq!(s.get_campaign(0).unwrap().raised, 100);

    let t2 = s.refund(0, &owner(), 150).unwrap();
    assert_eq!(t2.amount, 100);
    assert_eq!(s.on_transfer_confirmed(t2.operation_id), Ok(()));
    assert_eq!(s.get_campaign(0).unwrap().raised, 0);
    assert_eq!(s.total_contributions, 0);
    assert_eq!(s.get_campaign(0).unwrap().status(150), Status::Closed);
}

#[test]
fn scenario_successful_withdraw_and_claim() {
    let mut s = setup(1000, 100);
    assert_eq!(s.pledge(0, &bob(), 900, 90), Ok(()));
    assert_eq!(s.get_campaign(0).unwrap().raised, 1000);
    assert_eq!(s.get_campaign(0).unwrap().status(150), Status::Successful);

    let t = s.withdraw(0, &owner(), 150).unwrap();
    assert_eq!(t.amount, 1000);
    assert_eq!(t.token_id, tok_out());
    // A second attempt before confirmation is rejected.
    assert_eq!(s.withdraw(0, &owner(), 150), Err(Error::InvalidTransition));
    assert_eq!(s.on_transfer_confirmed(t.operation_id), Ok(()));
    assert!(s.get_campaign(0).unwrap().withdrawn);
    // And after confirmation too.
    assert_eq!(s.withdraw(0, &owner(), 150), Err(Error::InvalidTransition));
    // The raised record is kept: it is the claim denominator.
    assert_eq!(s.get_campaign(0).unwrap().raised, 1000);

    // Outgoing differs from incoming, so the pledge converts into
    // floor(900 * 500 / 1000) = 450 outgoing tokens.
    let tc = s.claim(0, &bob(), 500, 150).unwrap();
    assert_eq!(tc.amount, 450);
    assert_eq!(tc.token_id, tok_out());
    assert_eq!(s.on_transfer_confirmed(tc.operation_id), Ok(()));
    assert_eq!(s.claim(0, &bob(), 500, 150), Err(Error::InvalidTransition));
}

#[test]
fn failed_transfer_restores_snapshot() {
    let mut s = setup(1000, 100);
    assert_eq!(s.pledge(0, &bob(), 80, 20), Ok(()));
    let raised_before = s.get_campaign(0).unwrap().raised;
    let total_before = s.total_contributions;

    let t = s.unpledge(0, &bob(), 50, 30).unwrap();
    assert_eq!(t.amount, 50);
    // The decrement is tentative: nothing committed while in flight.
    assert_eq!(s.get_campaign(0).unwrap().raised, raised_before);

    assert_eq!(s.on_transfer_failed(t.operation_id), Ok(()));
    assert_eq!(s.get_campaign(0).unwrap().raised, raised_before);
    assert_eq!(s.total_contributions, total_before);
    let c = s.get_campaign(0).unwrap();
    assert_eq!(c.contributors.len(), 2);
    assert_eq!(c.contributors[1].account, bob());
    assert_eq!(c.contributors[1].amount, 80);

    // The discarded operation id is spent: neither event knows it any more.
    assert_eq!(s.on_transfer_failed(t.operation_id), Err(Error::NotFound));
    assert_eq!(s.on_transfer_confirmed(t.operation_id), Err(Error::NotFound));
}

#[test]
fn unpledge_commits_on_confirmation() {
    let mut s = setup(1000, 100);
    assert_eq!(s.pledge(0, &bob(), 80, 20), Ok(()));
    let t = s.unpledge(0, &bob(), 50, 30).unwrap();
    // Only one transfer may touch an entry at a time.
    assert_eq!(s.unpledge(0, &bob(), 10, 30), Err(Error::InvalidTransition));
    assert_eq!(s.on_transfer_confirmed(t.operation_id), Ok(()));
    let c = s.get_campaign(0).unwrap();
    assert_eq!(c.raised, 130);
    assert_eq!(c.contributors[1].amount, 30);
    assert_eq!(s.total_contributions, 130);
}

#[test]
fn pledge_rejected_after_end_time() {
    let mut s = setup(1000, 100);
    // Goal already met; the window still decides.
    assert_eq!(s.pledge(0, &bob(), 900, 20), Ok(()));
    assert_eq!(s.pledge(0, &bob(), 1, 100), Err(Error::InvalidTransition));
    assert_eq!(s.pledge(0, &bob(), 1, 5000), Err(Error::InvalidTransition));
    assert_eq!(s.get_campaign(0).unwrap().raised, 1000);
}

#[test]
fn unpledge_needs_balance_and_active_round() {
    let mut s = setup(1000, 100);
    assert_eq!(s.pledge(0, &bob(), 40, 20), Ok(()));
    assert_eq!(s.unpledge(0, &bob(), 50, 30), Err(Error::InsufficientBalance));
    assert_eq!(s.unpledge(0, &owner(), 0, 30), Err(Error::Validation(near_ido::errors::Field::Amount)));
    assert_eq!(s.unpledge(0, &String::from("carol.near"), 10, 30), Err(Error::NotFound));
    assert_eq!(s.unpledge(0, &bob(), 10, 150), Err(Error::InvalidTransition));
}

#[test]
fn refund_only_when_expired() {
    let mut s = setup(1000, 100);
    assert_eq!(s.refund(0, &owner(), 20), Err(Error::InvalidTransition));
    assert_eq!(s.refund(0, &String::from("carol.near"), 150), Err(Error::NotFound));
    let t = s.refund(0, &owner(), 150).unwrap();
    assert_eq!(s.on_transfer_confirmed(t.operation_id), Ok(()));
    // Every balance is settled now: the round is Closed, not Expired.
    assert_eq!(s.get_campaign(0).unwrap().status(150), Status::Closed);
    assert_eq!(s.refund(0, &owner(), 150), Err(Error::InvalidTransition));
}

#[test]
fn withdraw_owner_only_on_success() {
    let mut s = setup(1000, 100);
    assert_eq!(s.withdraw(0, &bob(), 150), Err(Error::Unauthorized));
    // 100 < 1000: the round expired, nothing to withdraw.
    assert_eq!(s.withdraw(0, &owner(), 150), Err(Error::InvalidTransition));
    assert_eq!(s.withdraw(1, &owner(), 150), Err(Error::NotFound));
}

#[test]
fn claim_disabled_for_same_token() {
    let mut s = NearIDO::new();
    s.internal_create_campaign(owner(), String::from("One asset"), 100, tok_in(), tok_in(), 100, 10, 100, 0)
        .unwrap();
    assert_eq!(s.get_campaign(0).unwrap().status(150), Status::Successful);
    assert_eq!(s.claim(0, &owner(), 500, 150), Err(Error::InvalidTransition));
}

#[test]
fn claim_requires_contribution() {
    let mut s = setup(100, 100);
    assert_eq!(s.get_campaign(0).unwrap().status(150), Status::Successful);
    assert_eq!(s.claim(0, &bob(), 500, 150), Err(Error::NotFound));
}

#[test]
fn change_status_gates_pledges() {
    let mut s = setup(1000, 100);
    assert_eq!(s.change_campaign_status(0, false, &bob(), 20), Err(Error::Unauthorized));
    assert_eq!(s.change_campaign_status(0, false, &owner(), 20), Ok(()));
    assert_eq!(s.pledge(0, &bob(), 50, 20), Err(Error::InvalidTransition));
    assert_eq!(s.change_campaign_status(0, true, &owner(), 30), Ok(()));
    assert_eq!(s.pledge(0, &bob(), 50, 30), Ok(()));
    // A resolved campaign cannot be toggled any more.
    assert_eq!(s.change_campaign_status(0, false, &owner(), 150), Err(Error::InvalidTransition));
}

#[test]
fn cancel_routes_to_refunds() {
    let mut s = setup(1000, 100);
    assert_eq!(s.cancel(0, &bob(), 20), Err(Error::Unauthorized));
    assert_eq!(s.cancel(0, &owner(), 20), Ok(()));
    // Cancelled resolves Expired at once, whatever the clock says.
    assert_eq!(s.get_campaign(0).unwrap().status(20), Status::Expired);
    assert_eq!(s.pledge(0, &bob(), 50, 20), Err(Error::InvalidTransition));
    let t = s.refund(0, &owner(), 20).unwrap();
    assert_eq!(t.amount, 100);
    assert_eq!(s.on_transfer_confirmed(t.operation_id), Ok(()));
    assert_eq!(s.total_contributions, 0);
}

#[test]
fn cancel_blocked_by_external_pledge() {
    let mut s = setup(1000, 100);
    assert_eq!(s.pledge(0, &bob(), 50, 20), Ok(()));
    assert_eq!(s.cancel(0, &owner(), 30), Err(Error::InvalidTransition));
}

#[test]
fn reordered_confirmations_commit_their_own_deltas() {
    let mut s = setup(10000, 100);
    let carol = String::from("carol.near");
    assert_eq!(s.pledge(0, &bob(), 300, 20), Ok(()));
    assert_eq!(s.pledge(0, &carol, 200, 20), Ok(()));
    let t1 = s.unpledge(0, &bob(), 50, 30).unwrap();
    let t2 = s.unpledge(0, &carol, 70, 30).unwrap();
    // An unrelated pledge on the same campaign proceeds while both are out.
    assert_eq!(s.pledge(0, &bob(), 10, 40), Ok(()));
    // Confirmations arrive in the opposite order; each commits only its own
    // delta, keyed by operation id.
    assert_eq!(s.on_transfer_confirmed(t2.operation_id), Ok(()));
    assert_eq!(s.on_transfer_confirmed(t1.operation_id), Ok(()));
    let c = s.get_campaign(0).unwrap();
    assert_eq!(c.contributors[1].amount, 260);
    assert_eq!(c.contributors[2].amount, 130);
    assert_eq!(c.raised, 490);
    assert_eq!(s.total_contributions, 490);
    // A replayed confirmation finds nothing to commit.
    assert_eq!(s.on_transfer_confirmed(t1.operation_id), Err(Error::NotFound));
}

#[test]
fn claim_dust_truncates_to_zero() {
    let mut s = setup(1000, 999);
    assert_eq!(s.pledge(0, &bob(), 1, 20), Ok(()));
    assert_eq!(s.get_campaign(0).unwrap().status(150), Status::Successful);
    // floor(1 * 100 / 1000) = 0: residual dust is never distributed.
    let t = s.claim(0, &bob(), 100, 150).unwrap();
    assert_eq!(t.amount, 0);
}

#[test]
fn ids_are_monotonic_and_counters_aggregate() {
    let mut s = setup(1000, 100);
    let id2 = s
        .internal_create_campaign(bob(), String::from("Second round"), 500, tok_in(), tok_out(), 25, 10, 100, 0)
        .unwrap();
    assert_eq!(id2, 1);
    assert_eq!(s.total_campaigns, 2);
    assert_eq!(s.total_contributions, 125);
    assert_eq!(s.get_campaign(1).unwrap().owner_id, bob());
    assert!(matches!(s.get_campaign(2), Err(Error::NotFound)));
}
