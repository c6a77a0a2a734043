use pallet_subscription::{
    Balances, Config, Error, Event, InstalmentData, Pallet, PlanData, PlanId, RuntimeDbWeight,
    SubscriptionId, SubscriptionToUserId,
};

const ALICE: u64 = 1;
const BOB: u64 = 2;
const CHARLIE: u64 = 3;
const PAUL: u64 = 4;

fn config() -> Config {
    Config {
        maximum_weight: 800_000_000_000,
        db_weight: RuntimeDbWeight { read: 25_000_000, write: 100_000_000 },
        max_metadata_length: 0,
    }
}

fn build() -> (Pallet, Balances) {
    let mut pallet = Pallet::new(config());
    pallet.set_block_number(1);
    let mut balances = Balances::new(1_000);
    balances.set_balance(ALICE, 1_000_000_000);
    balances.set_balance(BOB, 100_000_000_000);
    balances.set_balance(CHARLIE, 100_000_000_000);
    balances.set_balance(PAUL, 100_000_000_000);
    (pallet, balances)
}

fn snapshot(p: &Pallet) -> (u64, u64, Option<PlanData>, Option<PlanData>, Vec<InstalmentData>, Vec<Event>) {
    (
        p.plan_nonce(),
        p.subscription_to_user_nonce(),
        p.subscription_plan(PlanId(0)),
        p.subscription_to_user(SubscriptionToUserId(0)),
        p.active_subscriptions(p.block_number() + 1),
        p.events().clone(),
    )
}

#[test]
fn tests_subscribe() {
    let (mut p, _) = build();
    assert_eq!(p.subscribe_to_account(1, 2, 4000, 5, Some(4)), Ok(()));
    let before = snapshot(&p);
    assert_eq!(p.subscribe_to_account(1, 2, 0, 5, Some(4)), Err(Error::InvalidAmount));
    assert_eq!(p.subscribe_to_account(1, 2, 4000, 0, Some(4)), Err(Error::InvalidFrequency));
    assert_eq!(p.subscribe_to_account(1, 2, 0, 0, Some(4)), Err(Error::InvalidFrequency));
    assert_eq!(snapshot(&p), before);
    let expected_event = Event::SubscriptionToUser(
        1,
        PlanData { beneficiary: 2, amount: 4000, frequency: 5, number_of_instalments: Some(4) },
        SubscriptionToUserId(0),
    );
    assert_eq!(p.events()[0], expected_event);
}

#[test]
fn subscribe_multiple_events() {
    let (mut p, _) = build();
    assert_eq!(p.subscribe_to_account(1, 2, 4000, 5, Some(4)), Ok(()));
    let plan = PlanData { beneficiary: 2, amount: 4000, frequency: 5, number_of_instalments: Some(4) };
    assert_eq!(p.events()[0], Event::SubscriptionToUser(1, plan, SubscriptionToUserId(0)));
    assert_eq!(p.subscribe_to_account(7, 10, 6000, 7, Some(4)), Ok(()));
    let plan = PlanData { beneficiary: 10, amount: 6000, frequency: 7, number_of_instalments: Some(4) };
    assert_eq!(p.events()[1], Event::SubscriptionToUser(7, plan, SubscriptionToUserId(1)));
    assert_eq!(p.subscribe_to_account(8, 11, 6001, 8, Some(4)), Ok(()));
    let plan = PlanData { beneficiary: 11, amount: 6001, frequency: 8, number_of_instalments: Some(4) };
    assert_eq!(p.events()[2], Event::SubscriptionToUser(8, plan, SubscriptionToUserId(2)));
}

#[test]
fn tests_subscribe_frequency_zero() {
    let (mut p, _) = build();
    assert_eq!(p.subscribe_to_account(1, 2, 400, 0, Some(4)), Err(Error::InvalidFrequency));
}

#[test]
fn tests_subscribe_amount_zero() {
    let (mut p, _) = build();
    assert_eq!(p.subscribe_to_account(1, 2, 0, 5, Some(4)), Err(Error::InvalidAmount));
}

#[test]
fn subscribe_amount_frequency_zero() {
    let (mut p, _) = build();
    assert_eq!(p.subscribe_to_account(1, 2, 0, 0, Some(4)), Err(Error::InvalidFrequency));
}

#[test]
fn create_plan_ok() {
    let (mut p, _) = build();
    let amount = 4000;
    let frequency = 5;
    let number_of_instalments = None;
    let metadata: Vec<u8> = vec![];
    assert_eq!(p.create_plan(ALICE, amount, frequency, number_of_instalments, metadata.clone()), Ok(()));
    let plan_id: PlanId = 0.into();
    let expected_plan_data = PlanData { frequency, amount, number_of_instalments, beneficiary: ALICE };
    assert_eq!(p.subscription_plan(plan_id).unwrap(), expected_plan_data);
    assert_eq!(p.plan_metadata(plan_id).unwrap(), metadata);
    assert_eq!(p.plan_nonce(), 1);
    assert_eq!(p.events()[0], Event::PlanCreated(plan_id, expected_plan_data));
}

#[test]
fn invalid_amount() {
    let (mut p, _) = build();
    assert_eq!(p.create_plan(ALICE, 0, 5, None, vec![]), Err(Error::InvalidAmount));
}

#[test]
fn invalid_frequency() {
    let (mut p, _) = build();
    assert_eq!(p.create_plan(ALICE, 4000, 0, None, vec![]), Err(Error::InvalidFrequency));
}

#[test]
fn invalid_number_of_instalments() {
    let (mut p, _) = build();
    assert_eq!(p.create_plan(ALICE, 4000, 5, Some(0), vec![]), Err(Error::InvalidNumberOfInstalment));
}

#[test]
fn delete_plan_ok() {
    let (mut p, _) = build();
    assert_eq!(p.create_plan(ALICE, 4000, 5, None, vec![]), Ok(()));
    let plan_id: PlanId = 0.into();
    assert_eq!(p.delete_plan(ALICE, plan_id), Ok(()));
    assert_eq!(p.subscription_plan(plan_id), None);
    assert_eq!(p.events()[1], Event::PlanDeleted(plan_id));
}

#[test]
fn delete_plan_plan_does_not_exist() {
    let (mut p, _) = build();
    assert_eq!(p.delete_plan(ALICE, 0.into()), Err(Error::PlanDoesNotExist));
}

#[test]
fn delete_plan_must_be_owner() {
    let (mut p, _) = build();
    assert_eq!(p.create_plan(ALICE, 4000, 5, None, vec![]), Ok(()));
    let before = snapshot(&p);
    assert_eq!(p.delete_plan(BOB, 0.into()), Err(Error::MustBeOwner));
    assert_eq!(snapshot(&p), before);
}

#[test]
fn pause_plan_ok() {
    let (mut p, _) = build();
    assert_eq!(p.create_plan(ALICE, 4000, 5, None, vec![]), Ok(()));
    let plan_id: PlanId = 0.into();
    let opened = Event::PlanOpened(plan_id);
    let closed = Event::PlanClosed(plan_id);
    assert!(!p.are_subscriptions_closed(plan_id));
    assert_eq!(p.open_plan(ALICE, plan_id), Ok(()));
    assert!(!p.are_subscriptions_closed(plan_id));
    assert_eq!(p.events()[1], opened);
    assert_eq!(p.close_plan(ALICE, plan_id), Ok(()));
    assert!(p.are_subscriptions_closed(plan_id));
    assert_eq!(p.events()[2], closed);
    assert_eq!(p.close_plan(ALICE, plan_id), Ok(()));
    assert!(p.are_subscriptions_closed(plan_id));
    assert_eq!(p.events()[3], closed);
    assert_eq!(p.open_plan(ALICE, plan_id), Ok(()));
    assert!(!p.are_subscriptions_closed(plan_id));
    assert_eq!(p.events()[4], opened);
}

#[test]
fn pause_plan_plan_does_not_exist() {
    let (mut p, _) = build();
    let plan_id: PlanId = 0.into();
    assert_eq!(p.open_plan(ALICE, plan_id), Err(Error::PlanDoesNotExist));
    assert_eq!(p.close_plan(ALICE, plan_id), Err(Error::PlanDoesNotExist));
}

#[test]
fn pause_plan_must_be_owner() {
    let (mut p, _) = build();
    assert_eq!(p.create_plan(ALICE, 4000, 5, None, vec![]), Ok(()));
    let plan_id: PlanId = 0.into();
    assert_eq!(p.open_plan(BOB, plan_id), Err(Error::MustBeOwner));
    assert_eq!(p.close_plan(BOB, plan_id), Err(Error::MustBeOwner));
    assert!(!p.are_subscriptions_closed(plan_id));
}

#[test]
fn create_plan() {
    let (mut p, _) = build();
    assert_eq!(p.create_plan(ALICE, 500, 1, None, vec![]), Ok(()));
    assert_eq!(p.plan_nonce(), 1);
    let expected = PlanData { frequency: 1, amount: 500, number_of_instalments: None, beneficiary: ALICE };
    assert_eq!(p.subscription_plan(PlanId(0)), Some(expected));
}

#[test]
fn create_plan_for_someone_else() {
    // The beneficiary of a plan is always its creator.
    let (mut p, _) = build();
    assert_eq!(p.create_plan(ALICE, 500, 1, None, vec![]), Ok(()));
    assert_ne!(p.subscription_plan(PlanId(0)).unwrap().beneficiary, BOB);
}

#[test]
fn create_invalid_plan() {
    let (mut p, _) = build();
    assert_eq!(p.create_plan(ALICE, 500, 0, None, vec![]), Err(Error::InvalidFrequency));
}

#[test]
fn delete_plan() {
    let (mut p, _) = build();
    assert_eq!(p.create_plan(ALICE, 500, 1, None, vec![]), Ok(()));
    assert_eq!(p.plan_nonce(), 1);
    let expected = PlanData { frequency: 1, amount: 500, number_of_instalments: None, beneficiary: ALICE };
    assert_eq!(p.subscription_plan(PlanId(0)), Some(expected));
    assert_eq!(p.delete_plan(ALICE, PlanId(0)), Ok(()));
    assert_eq!(p.plan_nonce(), 1);
    assert_eq!(p.subscription_plan(PlanId(0)), None);
}

#[test]
fn delete_unknown_plan() {
    let (mut p, _) = build();
    assert_eq!(p.create_plan(ALICE, 500, 1, None, vec![]), Ok(()));
    assert_eq!(p.delete_plan(ALICE, PlanId(1)), Err(Error::PlanDoesNotExist));
}

#[test]
fn subscribe_to_plan() {
    let (mut p, _) = build();
    assert_eq!(p.create_plan(ALICE, 500, 1, None, vec![]), Ok(()));
    assert_eq!(p.subscribe_to_plan(BOB, PlanId(0)), Ok(()));
    let expected = InstalmentData {
        subscription_id: SubscriptionId::Plan(PlanId(0)),
        remaining_payments: None,
        payer: BOB,
    };
    assert!(p.active_subscriptions(2).contains(&expected));
}

#[test]
fn subscribe_to_unknown_plan() {
    let (mut p, _) = build();
    assert_eq!(p.create_plan(ALICE, 500, 1, None, vec![]), Ok(()));
    assert_eq!(p.subscribe_to_plan(BOB, PlanId(1)), Err(Error::PlanDoesNotExist));
}

#[test]
fn subscribe_subscribe() {
    let (mut p, _) = build();
    let number_of_instalments = Some(4);
    assert_eq!(p.create_plan(BOB, 4000, 5, number_of_instalments, vec![]), Ok(()));
    let plan_id: PlanId = 0.into();
    assert_eq!(p.subscribe_to_plan(ALICE, plan_id), Ok(()));
    let expected = InstalmentData {
        subscription_id: plan_id.into(),
        remaining_payments: number_of_instalments,
        payer: ALICE,
    };
    assert!(p.active_subscriptions(2).contains(&expected));
    assert_eq!(p.events()[1], Event::Subscription(ALICE, plan_id.into()));
}

#[test]
fn subscribe_multiple_events_ok() {
    let (mut p, _) = build();
    let number_of_instalments = Some(4);
    assert_eq!(p.create_plan(BOB, 4000, 5, number_of_instalments, vec![]), Ok(()));
    let plan_id: PlanId = 0.into();
    assert_eq!(p.subscribe_to_plan(ALICE, plan_id), Ok(()));
    let expected = InstalmentData {
        subscription_id: plan_id.into(),
        remaining_payments: number_of_instalments,
        payer: ALICE,
    };
    assert!(p.active_subscriptions(2).contains(&expected));
    assert_eq!(p.events()[1], Event::Subscription(ALICE, plan_id.into()));
    assert_eq!(p.subscribe_to_plan(CHARLIE, plan_id), Ok(()));
    let expected = InstalmentData {
        subscription_id: plan_id.into(),
        remaining_payments: number_of_instalments,
        payer: CHARLIE,
    };
    assert!(p.active_subscriptions(2).contains(&expected));
    assert_eq!(p.events()[2], Event::Subscription(CHARLIE, plan_id.into()));
}

#[test]
fn subscribe_plan_does_not_exist() {
    let (mut p, _) = build();
    assert_eq!(p.subscribe_to_plan(ALICE, 0.into()), Err(Error::PlanDoesNotExist));
}

#[test]
fn cannot_subscribe_to_self() {
    let (mut p, _) = build();
    assert_eq!(p.create_plan(ALICE, 4000, 5, Some(4), vec![]), Ok(()));
    let before = snapshot(&p);
    assert_eq!(p.subscribe_to_plan(ALICE, 0.into()), Err(Error::CannotSubscribeToSelf));
    assert_eq!(snapshot(&p), before);
}

#[test]
fn subscribe_to_user_subscribe_frequency_zero() {
    let (mut p, _) = build();
    assert_eq!(p.subscribe_to_account(ALICE, BOB, 400, 0, Some(4)), Err(Error::InvalidFrequency));
}

#[test]
fn subscribe_to_user_subscribe_amount_zero() {
    let (mut p, _) = build();
    assert_eq!(p.subscribe_to_account(ALICE, BOB, 0, 5, Some(4)), Err(Error::InvalidAmount));
}

#[test]
fn subscribe_instalments_zero() {
    let (mut p, _) = build();
    assert_eq!(
        p.subscribe_to_account(ALICE, BOB, 400, 10, Some(0)),
        Err(Error::InvalidNumberOfInstalment)
    );
}

#[test]
fn subscribe_number_of_installment_none() {
    let (mut p, _) = build();
    let amount = 2000;
    let frequency = 4;
    let number_of_instalments = None;
    assert_eq!(p.subscribe_to_account(ALICE, BOB, amount, frequency, number_of_instalments), Ok(()));
    let id = SubscriptionToUserId(0);
    let expected_instalment = InstalmentData {
        subscription_id: SubscriptionId::User(id),
        remaining_payments: number_of_instalments,
        payer: ALICE,
    };
    assert!(p.active_subscriptions(2).contains(&expected_instalment));
    let plan = PlanData { beneficiary: BOB, amount, frequency, number_of_instalments };
    assert_eq!(p.subscription_to_user(id), Some(plan));
    assert_eq!(p.events()[0], Event::SubscriptionToUser(ALICE, plan, id));
}

#[test]
fn unsubscribe() {
    let (mut p, _) = build();
    let number_of_instalments = Some(4);
    assert_eq!(p.create_plan(BOB, 4000, 5, number_of_instalments, vec![]), Ok(()));
    let plan_id: PlanId = 0.into();
    assert_eq!(p.subscribe_to_plan(ALICE, plan_id), Ok(()));
    let when = p.block_number() + 1;
    let index: u32 = 0;
    let instalment_data = InstalmentData {
        subscription_id: plan_id.into(),
        remaining_payments: number_of_instalments,
        payer: ALICE,
    };
    assert!(p.active_subscriptions(when).contains(&instalment_data));
    assert_eq!(p.unsubscribe(ALICE, when, index), Ok(()));
    assert!(!p.active_subscriptions(when).contains(&instalment_data));
    assert_eq!(p.events()[2], Event::Unsubscription(ALICE, plan_id.into()));
}

#[test]
fn no_subscription_planned_at_block() {
    let (mut p, _) = build();
    assert_eq!(p.unsubscribe(ALICE, 1000, 0), Err(Error::NoSubscriptionPlannedAtBlock));
}

#[test]
fn index_out_of_bounds() {
    let (mut p, _) = build();
    assert_eq!(p.create_plan(BOB, 4000, 5, Some(4), vec![]), Ok(()));
    assert_eq!(p.subscribe_to_plan(ALICE, 0.into()), Ok(()));
    let when = p.block_number() + 1;
    let before = snapshot(&p);
    assert_eq!(p.unsubscribe(ALICE, when, 1000), Err(Error::IndexOutOfBounds));
    assert_eq!(snapshot(&p), before);
}

#[test]
fn callet_is_not_payer() {
    let (mut p, _) = build();
    assert_eq!(p.create_plan(BOB, 4000, 5, Some(4), vec![]), Ok(()));
    assert_eq!(p.subscribe_to_plan(ALICE, 0.into()), Ok(()));
    let when = p.block_number() + 1;
    let before = snapshot(&p);
    assert_eq!(p.unsubscribe(CHARLIE, when, 0), Err(Error::CallerIsNotPayer));
    assert_eq!(snapshot(&p), before);
}

#[test]
fn closed_plan_refuses_subscriptions() {
    let (mut p, _) = build();
    assert_eq!(p.create_plan(BOB, 4000, 5, None, vec![]), Ok(()));
    assert_eq!(p.close_plan(BOB, PlanId(0)), Ok(()));
    assert_eq!(p.subscribe_to_plan(ALICE, PlanId(0)), Err(Error::SubscriptionsAreClosed));
    assert!(p.active_subscriptions(2).is_empty());
    assert_eq!(p.open_plan(BOB, PlanId(0)), Ok(()));
    assert_eq!(p.subscribe_to_plan(ALICE, PlanId(0)), Ok(()));
}

#[test]
fn direct_subscription_to_self_is_refused() {
    let (mut p, _) = build();
    assert_eq!(p.subscribe_to_account(ALICE, ALICE, 4000, 5, None), Err(Error::CannotSubscribeToSelf));
    assert_eq!(p.subscription_to_user_nonce(), 0);
    assert!(p.active_subscriptions(2).is_empty());
}

#[test]
fn invalid_plan_leaves_registry_unchanged() {
    let (mut p, _) = build();
    assert_eq!(p.create_plan(ALICE, 4000, 5, None, vec![]), Ok(()));
    let before = snapshot(&p);
    assert_eq!(p.create_plan(BOB, 0, 5, None, vec![]), Err(Error::InvalidAmount));
    assert_eq!(p.create_plan(BOB, 4000, 0, None, vec![]), Err(Error::InvalidFrequency));
    assert_eq!(p.create_plan(BOB, 4000, 5, Some(0), vec![]), Err(Error::InvalidNumberOfInstalment));
    assert_eq!(snapshot(&p), before);
    assert_eq!(p.subscription_plan(PlanId(1)), None);
}

#[test]
fn owner_cannot_subscribe_to_own_closed_plan() {
    let (mut p, _) = build();
    assert_eq!(p.create_plan(ALICE, 4000, 5, None, vec![]), Ok(()));
    assert_eq!(p.close_plan(ALICE, PlanId(0)), Ok(()));
    let before = snapshot(&p);
    assert_eq!(p.subscribe_to_plan(ALICE, PlanId(0)), Err(Error::CannotSubscribeToSelf));
    assert_eq!(snapshot(&p), before);
}

#[test]
fn new_plan_is_open() {
    let (mut p, _) = build();
    assert_eq!(p.create_plan(ALICE, 4000, 5, None, vec![]), Ok(()));
    assert_eq!(p.close_plan(ALICE, PlanId(0)), Ok(()));
    assert_eq!(p.delete_plan(ALICE, PlanId(0)), Ok(()));
    assert_eq!(p.create_plan(ALICE, 4000, 5, None, vec![]), Ok(()));
    assert!(!p.are_subscriptions_closed(PlanId(1)));
    assert!(!p.are_subscriptions_closed(PlanId(0)));
}
