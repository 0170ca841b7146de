use near_ido::errors::{Error, Field};
use near_ido::request::{CampaignInput, Kind, Request};
use near_ido::NearIDO;

fn input() -> CampaignInput {
    CampaignInput {
        name: String::from("Tin callings"),
        goal: 1000000000000000000000000,
        incoming_token_id: String::from("dev-1610107640000-10000000000000"),
        outgoing_token_id: String::from("dev-1610107640000-10000000000000"),
        start_time: 1610107640000,
        end_time: 1610107640001,
    }
}

#[test]
fn undecodable_message_rejects_whole_transfer() {
    let mut s = NearIDO::new();
    assert_eq!(s.ft_on_transfer(String::from("alice.near"), 100, None, 0), Err(Error::MessageParseError));
    assert_eq!(s.total_campaigns, 0);
    assert_eq!(s.total_contributions, 0);
}

#[test]
fn unknown_kind_fails_closed() {
    let mut s = NearIDO::new();
    let msg = Request::new(Kind::Unknown, Some(input()));
    assert_eq!(s.ft_on_transfer(String::from("alice.near"), 100, Some(msg), 0), Err(Error::MessageParseError));
    assert_eq!(s.total_campaigns, 0);
    assert_eq!(s.total_contributions, 0);
}

#[test]
fn create_without_payload_is_rejected() {
    let mut s = NearIDO::new();
    let msg = Request::new(Kind::CreateCampaign, None);
    assert_eq!(s.ft_on_transfer(String::from("alice.near"), 100, Some(msg), 0), Err(Error::MessageParseError));
    assert_eq!(s.total_campaigns, 0);
}

#[test]
fn inbound_create_registers_campaign() {
    let mut s = NearIDO::new();
    let msg = Request::new(Kind::CreateCampaign, Some(input()));
    let r = s.ft_on_transfer(String::from("alice.near"), 100, Some(msg), 0);
    assert_eq!(r, Ok(0));
    assert_eq!(s.total_campaigns, 1);
    assert_eq!(s.total_contributions, 100);
    let c = s.get_campaign(0).unwrap();
    assert_eq!(c.name, "Tin callings");
    assert_eq!(c.goal, 1000000000000000000000000);
    assert_eq!(c.owner_id, "alice.near");
    assert_eq!(c.raised, 100);
    assert_eq!(c.contributors.len(), 1);
    assert_eq!(c.contributors[0].account, "alice.near");
    assert_eq!(c.contributors[0].amount, 100);
    assert_eq!(c.start_time, 1610107640000);
    assert_eq!(c.end_time, 1610107640001);
}

#[test]
fn inbound_create_with_bad_field_commits_nothing() {
    let mut s = NearIDO::new();
    let mut bad = input();
    bad.name = String::new();
    let msg = Request::new(Kind::CreateCampaign, Some(bad));
    let r = s.ft_on_transfer(String::from("alice.near"), 100, Some(msg), 0);
    assert_eq!(r, Err(Error::Validation(Field::Name)));
    assert_eq!(s.total_campaigns, 0);
    assert_eq!(s.total_contributions, 0);
}

#[test]
fn request_accessors_round_trip() {
    let msg = Request::new(Kind::CreateCampaign, Some(input()));
    assert_eq!(*msg.kind(), Kind::CreateCampaign);
    let c = msg.campaign().unwrap();
    assert_eq!(c.name, "Tin callings");
    assert_eq!(c.goal, 1000000000000000000000000);
    assert_eq!(c.incoming_token_id, "dev-1610107640000-10000000000000");
    assert_eq!(c.outgoing_token_id, "dev-1610107640000-10000000000000");
    assert_eq!(c.start_time, 1610107640000);
    assert_eq!(c.end_time, 1610107640001);
    let none = Request::new(Kind::Unknown, None);
    assert!(none.campaign().is_none());
}
