use near_ido::account::is_valid_account_id;
use near_ido::amount::parse_u128;
use near_ido::errors::{Error, Field};
use near_ido::NearIDO;

fn create(
    s: &mut NearIDO,
    name: &str,
    goal: u128,
    tok_in: &str,
    tok_out: &str,
    initial: u128,
    start: u64,
    end: u64,
    now: u64,
) -> Result<u128, Error> {
    s.internal_create_campaign(
        String::from("alice.near"),
        String::from(name),
        goal,
        String::from(tok_in),
        String::from(tok_out),
        initial,
        start,
        end,
        now,
    )
}

#[test]
fn create_validates_fields_in_order() {
    let mut s = NearIDO::new();
    let long = "x".repeat(65);
    assert_eq!(create(&mut s, "", 10, "t.near", "u.near", 1, 10, 20, 0), Err(Error::Validation(Field::Name)));
    assert_eq!(create(&mut s, &long, 10, "t.near", "u.near", 1, 10, 20, 0), Err(Error::Validation(Field::Name)));
    assert_eq!(create(&mut s, "ok", 0, "t.near", "u.near", 1, 10, 20, 0), Err(Error::Validation(Field::Goal)));
    assert_eq!(create(&mut s, "ok", 10, "t.near", "u.near", 0, 10, 20, 0), Err(Error::Validation(Field::InitialAmount)));
    assert_eq!(create(&mut s, "ok", 10, "t.near", "u.near", 1, 10, 20, 10), Err(Error::Validation(Field::StartTime)));
    assert_eq!(create(&mut s, "ok", 10, "t.near", "u.near", 1, 10, 10, 0), Err(Error::Validation(Field::EndTime)));
    assert_eq!(create(&mut s, "ok", 10, "-bad", "u.near", 1, 10, 20, 0), Err(Error::Validation(Field::IncomingToken)));
    assert_eq!(create(&mut s, "ok", 10, "t.near", "bad-", 1, 10, 20, 0), Err(Error::Validation(Field::OutgoingToken)));
    let r = s.internal_create_campaign(
        String::from("UPPER"),
        String::from("ok"),
        10,
        String::from("t.near"),
        String::from("u.near"),
        1,
        10,
        20,
        0,
    );
    assert_eq!(r, Err(Error::Validation(Field::Owner)));
    assert_eq!(s.total_campaigns, 0);
    assert_eq!(s.total_contributions, 0);
    assert_eq!(create(&mut s, "ok", 10, "t.near", "u.near", 1, 10, 20, 0), Ok(0));
}

#[test]
fn pledge_amount_must_be_positive() {
    let mut s = NearIDO::new();
    create(&mut s, "ok", 1000, "t.near", "u.near", 100, 10, 100, 0).unwrap();
    assert_eq!(s.pledge(0, &String::from("bob.near"), 0, 20), Err(Error::Validation(Field::Amount)));
    assert_eq!(s.pledge(1, &String::from("bob.near"), 5, 20), Err(Error::NotFound));
}

#[test]
fn parse_u128_reads_decimal_strings() {
    assert_eq!(parse_u128("0"), Some(0));
    assert_eq!(parse_u128("42"), Some(42));
    assert_eq!(parse_u128("0042"), Some(42));
    assert_eq!(parse_u128("1000000000000000000000000"), Some(1000000000000000000000000));
    assert_eq!(parse_u128("340282366920938463463374607431768211455"), Some(u128::MAX));
}

#[test]
fn parse_u128_rejects_junk_and_overflow() {
    assert_eq!(parse_u128(""), None);
    assert_eq!(parse_u128("12a"), None);
    assert_eq!(parse_u128("-5"), None);
    assert_eq!(parse_u128("+5"), None);
    assert_eq!(parse_u128("1 2"), None);
    assert_eq!(parse_u128("340282366920938463463374607431768211456"), None);
    assert_eq!(parse_u128("999999999999999999999999999999999999999999"), None);
}

#[test]
fn account_ids_follow_the_grammar() {
    assert!(is_valid_account_id("dev-1610107640000-10000000000000"));
    assert!(is_valid_account_id("alice.near"));
    assert!(is_valid_account_id("a_b-c.d9"));
    assert!(is_valid_account_id("ab"));
    assert!(!is_valid_account_id("a"));
    assert!(!is_valid_account_id(""));
    assert!(!is_valid_account_id("-ab"));
    assert!(!is_valid_account_id("ab-"));
    assert!(!is_valid_account_id("a--b"));
    assert!(!is_valid_account_id("a..b"));
    assert!(!is_valid_account_id("Alice.near"));
    assert!(!is_valid_account_id("has space"));
    let long = "a".repeat(65);
    assert!(!is_valid_account_id(&long));
    let max = "a".repeat(64);
    assert!(is_valid_account_id(&max));
}
