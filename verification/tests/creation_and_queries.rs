//! Drop creation: validation, refunds, identifier assignment — and the
//! read-only queries with their clamped pagination.

use neardrop::model::{Contact, ContactTypes, PayoutInput};
use neardrop::store::{AddDropError, NearDrop, MIN_DEPOSIT_AMOUNT};

const UNIT: u128 = MIN_DEPOSIT_AMOUNT;

fn contact(value: &str) -> Contact {
    Contact { contact_type: ContactTypes::Telegram, value: value.to_string() }
}

fn one_payout(amount: u128) -> Vec<PayoutInput> {
    vec![PayoutInput { amount, contact: contact("someone") }]
}

fn add_simple(nd: &mut NearDrop, owner: &str, deposit: u128) -> u64 {
    nd.add_drop(
        owner.to_string(),
        deposit,
        one_payout(UNIT),
        "title".to_string(),
        "description".to_string(),
    )
    .unwrap()
    .drop_id
}

#[test]
fn default_store_is_empty() {
    let nd = NearDrop::default();
    assert!(nd.get_drop(0).is_none());
    assert!(nd.get_drops(0, 10).is_empty());
}

#[test]
fn surplus_deposit_is_refunded() {
    let mut nd = NearDrop::new("auth.near".to_string());
    let created = nd
        .add_drop(
            "funder.near".to_string(),
            5 * UNIT,
            vec![
                PayoutInput { amount: UNIT, contact: contact("a") },
                PayoutInput { amount: 2 * UNIT, contact: contact("b") },
            ],
            "t".to_string(),
            "d".to_string(),
        )
        .unwrap();
    assert_eq!(created.drop_id, 0);
    assert_eq!(created.refund, 2 * UNIT);
}

#[test]
fn drop_ids_are_sequential() {
    let mut nd = NearDrop::new("auth.near".to_string());
    assert_eq!(add_simple(&mut nd, "x.near", UNIT), 0);
    assert_eq!(add_simple(&mut nd, "y.near", UNIT), 1);
    assert_eq!(add_simple(&mut nd, "x.near", UNIT), 2);
}

#[test]
fn rejects_low_deposit() {
    let mut nd = NearDrop::new("auth.near".to_string());
    let r = nd.add_drop(
        "f.near".to_string(),
        UNIT - 1,
        one_payout(1),
        "t".to_string(),
        "d".to_string(),
    );
    assert_eq!(r.unwrap_err(), AddDropError::NotEnoughDeposit);
    assert!(nd.get_drop(0).is_none());
}

#[test]
fn rejects_too_many_payouts() {
    let mut nd = NearDrop::new("auth.near".to_string());
    let payouts: Vec<PayoutInput> =
        (0..32).map(|_| PayoutInput { amount: 1, contact: contact("a") }).collect();
    let r = nd.add_drop("f.near".to_string(), UNIT, payouts, "t".to_string(), "d".to_string());
    assert_eq!(r.unwrap_err(), AddDropError::TooManyUsers);
}

#[test]
fn rejects_empty_payouts() {
    let mut nd = NearDrop::new("auth.near".to_string());
    let r = nd.add_drop("f.near".to_string(), UNIT, vec![], "t".to_string(), "d".to_string());
    assert_eq!(r.unwrap_err(), AddDropError::MissingRewards);
}

#[test]
fn rejects_long_description() {
    let mut nd = NearDrop::new("auth.near".to_string());
    let long = "x".repeat(280);
    let r = nd.add_drop("f.near".to_string(), UNIT, one_payout(1), "t".to_string(), long);
    assert_eq!(r.unwrap_err(), AddDropError::DescriptionTooLong);
}

#[test]
fn rejects_long_title() {
    let mut nd = NearDrop::new("auth.near".to_string());
    let long = "x".repeat(128);
    let r = nd.add_drop("f.near".to_string(), UNIT, one_payout(1), long, "d".to_string());
    assert_eq!(r.unwrap_err(), AddDropError::TitleTooLong);
}

#[test]
fn rejects_payouts_beyond_deposit() {
    let mut nd = NearDrop::new("auth.near".to_string());
    let r = nd.add_drop(
        "f.near".to_string(),
        UNIT,
        one_payout(UNIT + 1),
        "t".to_string(),
        "d".to_string(),
    );
    assert_eq!(r.unwrap_err(), AddDropError::NotEnoughForRewards);
}

#[test]
fn rejects_payout_sum_overflow() {
    let mut nd = NearDrop::new("auth.near".to_string());
    let r = nd.add_drop(
        "f.near".to_string(),
        u128::MAX,
        vec![
            PayoutInput { amount: u128::MAX, contact: contact("a") },
            PayoutInput { amount: u128::MAX, contact: contact("b") },
        ],
        "t".to_string(),
        "d".to_string(),
    );
    assert_eq!(r.unwrap_err(), AddDropError::NotEnoughForRewards);
}

#[test]
fn get_drop_returns_the_record() {
    let mut nd = NearDrop::new("auth.near".to_string());
    add_simple(&mut nd, "owner.near", UNIT);
    let d = nd.get_drop(0).unwrap();
    assert_eq!(d.owner_account_id, "owner.near");
    assert_eq!(d.title, "title");
    assert_eq!(d.description, "description");
    assert_eq!(d.payouts.len(), 1);
    assert_eq!(d.payouts[0].amount, UNIT);
    assert!(!d.payouts[0].claimed);
    assert!(nd.get_drop(1).is_none());
}

#[test]
fn pagination_is_clamped() {
    let mut nd = NearDrop::new("auth.near".to_string());
    for _ in 0..3 {
        add_simple(&mut nd, "owner.near", UNIT);
    }
    let all = nd.get_drops(0, 10);
    assert_eq!(all.len(), 3);
    for (k, entry) in all.iter().enumerate() {
        assert_eq!(entry.0, k as u64);
        assert!(entry.0 < 3);
    }
    let middle = nd.get_drops(1, 1);
    assert_eq!(middle.len(), 1);
    assert_eq!(middle[0].0, 1);
    assert!(nd.get_drops(3, 5).is_empty());
    assert!(nd.get_drops(17, 5).is_empty());
    assert_eq!(nd.get_drops(0, u64::MAX).len(), 3);
}

#[test]
fn pagination_by_owner_filters() {
    let mut nd = NearDrop::new("auth.near".to_string());
    add_simple(&mut nd, "x.near", UNIT);
    add_simple(&mut nd, "y.near", UNIT);
    add_simple(&mut nd, "x.near", UNIT);
    let xs = nd.get_drops_by_account_id("x.near".to_string(), 0, 10);
    assert_eq!(xs.len(), 2);
    assert_eq!(xs[0].0, 0);
    assert_eq!(xs[1].0, 2);
    assert_eq!(xs[0].1.owner_account_id, "x.near");
    let ys = nd.get_drops_by_account_id("y.near".to_string(), 0, 10);
    assert_eq!(ys.len(), 1);
    assert_eq!(ys[0].0, 1);
    let from_one = nd.get_drops_by_account_id("x.near".to_string(), 1, 10);
    assert_eq!(from_one.len(), 1);
    assert_eq!(from_one[0].0, 2);
    assert!(nd.get_drops_by_account_id("x.near".to_string(), 3, 10).is_empty());
}

#[test]
fn contact_comparison_is_structural() {
    let a = contact("same");
    let b = Contact { contact_type: ContactTypes::Telegram, value: "same".to_string() };
    let c = Contact { contact_type: ContactTypes::Email, value: "same".to_string() };
    let d = contact("other");
    assert!(a.same_as(&b));
    assert!(!a.same_as(&c));
    assert!(!a.same_as(&d));
}
