use autoshare::autoshare_logic;
use autoshare::base::errors::Error;
use autoshare::base::events::{
    AdminTransferred, AutoshareCreated, AutoshareUpdated, Event, GroupActivated,
    GroupDeactivated, GroupDeleted, Withdrawal,
};
use autoshare::base::types::{Address, BytesN, GroupMember, PaymentHistory};
use autoshare::interfaces::autoshare::AutoShareTrait;
use autoshare::state::{State, Transfer, DEFAULT_USAGE_FEE};
use autoshare::AutoShareContract;

fn admin() -> Address {
    Address::account([0xad; 32])
}

fn token() -> Address {
    Address::contract([0x70; 32])
}

fn user(n: u8) -> Address {
    Address::account([n; 32])
}

fn group(n: u8) -> BytesN<32> {
    BytesN::from_array(&[n; 32])
}

fn member(address: Address, percentage: u32) -> GroupMember {
    GroupMember { address, percentage }
}

/// Lets the admin and the users numbered one to nine authorize what is
/// done in their name.
fn mock_all_auths(mut state: State) -> State {
    state.authorize(admin());
    for n in 1..=9 {
        state.authorize(user(n));
    }
    state
}

fn setup() -> State {
    let mut state = mock_all_auths(State::new());
    AutoShareContract::initialize_admin(&mut state, admin());
    AutoShareContract::add_supported_token(&mut state, token(), admin());
    state
}

#[test]
fn test_new_state_is_empty() {
    let state = State::new();
    assert_eq!(state.admin, None);
    assert!(!state.paused);
    assert_eq!(state.usage_fee, 10);
    assert_eq!(DEFAULT_USAGE_FEE, 10);
    assert!(state.supported_tokens.is_empty());
    assert!(state.groups.is_empty());
    assert!(state.payments.is_empty());
    assert!(state.distributions.is_empty());
    assert_eq!(state.timestamp, 0);
    assert!(state.transfers.is_empty());
    assert!(state.events.is_empty());
    assert!(state.authorized.is_empty());
}

#[test]
fn test_authorize_records_the_party() {
    let mut state = State::new();
    assert!(!state.is_authorized(user(1)));
    state.authorize(user(1));
    assert!(state.is_authorized(user(1)));
    assert!(!state.is_authorized(user(2)));
    assert!(!state.is_authorized(Address::contract([1; 32])));
    state.authorize(user(2));
    assert!(state.is_authorized(user(1)));
    assert!(state.is_authorized(user(2)));
    assert_eq!(state.authorized, vec![user(1), user(2)]);
}

#[test]
fn test_create_then_get_returns_the_group() {
    for usage_count in [1u32, 2, 50, u32::MAX] {
        let mut state = setup();
        let id = group(1);
        assert_eq!(
            autoshare_logic::create_autoshare(
                &mut state,
                id,
                String::from("Team"),
                user(1),
                usage_count,
                token()
            ),
            Ok(())
        );
        let details = autoshare_logic::get_autoshare(&state, id).unwrap();
        assert_eq!(details.id, id);
        assert_eq!(details.name, "Team");
        assert_eq!(details.creator, user(1));
        assert_eq!(details.usage_count, usage_count);
        assert_eq!(details.total_usages_paid, usage_count);
        assert!(details.members.is_empty());
        assert!(details.is_active);
    }
}

#[test]
fn test_create_collects_the_price_and_records_the_payment() {
    let mut state = setup();
    state.timestamp = 1_700_000_000;
    AutoShareContract::set_usage_fee(&mut state, 25, admin());
    AutoShareContract::create(&mut state, group(1), String::from("Team"), user(1), 4, token());

    assert_eq!(
        state.transfers,
        vec![Transfer::Collect { token: token(), from: user(1), amount: 100 }]
    );
    let payment = PaymentHistory {
        user: user(1),
        group_id: group(1),
        usages_purchased: 4,
        amount_paid: 100,
        timestamp: 1_700_000_000,
    };
    assert_eq!(AutoShareContract::get_user_payment_history(&state, user(1)), vec![payment]);
    assert_eq!(AutoShareContract::get_group_payment_history(&state, group(1)), vec![payment]);
    assert_eq!(
        state.events,
        vec![Event::AutoshareCreated(AutoshareCreated { creator: user(1), id: group(1) })]
    );
}

#[test]
fn test_create_price_does_not_overflow() {
    let mut state = setup();
    AutoShareContract::set_usage_fee(&mut state, u32::MAX, admin());
    AutoShareContract::create(
        &mut state,
        group(1),
        String::from("Team"),
        user(1),
        u32::MAX,
        token(),
    );
    assert_eq!(
        state.transfers,
        vec![Transfer::Collect {
            token: token(),
            from: user(1),
            amount: 18_446_744_065_119_617_025
        }]
    );
}

#[test]
fn test_create_errors_in_order() {
    let mut state = setup();
    let other = Address::contract([0x71; 32]);
    AutoShareContract::create(&mut state, group(1), String::from("Team"), user(1), 1, token());
    let before = state.groups.len();

    assert_eq!(
        autoshare_logic::create_autoshare(&mut state, group(1), String::new(), user(2), 0, other),
        Err(Error::AlreadyExists)
    );
    assert_eq!(
        autoshare_logic::create_autoshare(&mut state, group(2), String::new(), user(2), 0, other),
        Err(Error::InvalidUsageCount)
    );
    assert_eq!(
        autoshare_logic::create_autoshare(&mut state, group(2), String::new(), user(2), 1, other),
        Err(Error::UnsupportedToken)
    );
    assert_eq!(state.groups.len(), before);
    assert_eq!(state.transfers.len(), 1);
    assert_eq!(state.payments.len(), 1);
}

#[test]
fn test_delete_group_needs_deactivation_and_keeps_history() {
    let mut state = setup();
    let id = group(1);
    AutoShareContract::create(&mut state, id, String::from("Team"), user(1), 3, token());
    AutoShareContract::create(&mut state, group(2), String::from("Other"), user(2), 1, token());

    assert_eq!(
        autoshare_logic::delete_group(&mut state, id, user(1)),
        Err(Error::GroupNotDeactivated)
    );
    assert_eq!(AutoShareContract::get_all_groups(&state).len(), 2);

    AutoShareContract::deactivate_group(&mut state, id, user(1));
    assert_eq!(autoshare_logic::delete_group(&mut state, id, user(1)), Ok(()));

    let left = AutoShareContract::get_all_groups(&state);
    assert_eq!(left.len(), 1);
    assert_eq!(left[0].id, group(2));
    assert_eq!(autoshare_logic::get_autoshare(&state, id), Err(Error::NotFound));
    assert_eq!(autoshare_logic::get_remaining_usages(&state, id), Err(Error::NotFound));

    let history = AutoShareContract::get_group_payment_history(&state, id);
    assert_eq!(history.len(), 1);
    assert_eq!(history[0].usages_purchased, 3);
    assert_eq!(history[0].amount_paid, 30);
    assert_eq!(AutoShareContract::get_user_payment_history(&state, user(1)).len(), 1);
    assert_eq!(
        state.events.last(),
        Some(&Event::GroupDeleted(GroupDeleted { deleter: user(1), id }))
    );
    // Nothing is refunded.
    assert_eq!(state.transfers.len(), 2);
}

#[test]
fn test_delete_group_by_admin_and_by_stranger() {
    let mut state = setup();
    let id = group(1);
    AutoShareContract::create(&mut state, id, String::from("Team"), user(1), 1, token());
    AutoShareContract::deactivate_group(&mut state, id, user(1));

    assert_eq!(
        autoshare_logic::delete_group(&mut state, id, user(2)),
        Err(Error::Unauthorized)
    );
    assert_eq!(
        autoshare_logic::delete_group(&mut state, group(9), admin()),
        Err(Error::NotFound)
    );
    assert_eq!(autoshare_logic::delete_group(&mut state, id, admin()), Ok(()));
    assert!(AutoShareContract::get_all_groups(&state).is_empty());
}

#[test]
fn test_deleted_identifier_can_be_used_again() {
    let mut state = setup();
    let id = group(1);
    AutoShareContract::create(&mut state, id, String::from("First"), user(1), 1, token());
    AutoShareContract::deactivate_group(&mut state, id, user(1));
    AutoShareContract::delete_group(&mut state, id, user(1));
    AutoShareContract::create(&mut state, id, String::from("Second"), user(2), 2, token());
    let details = AutoShareContract::get(&state, id);
    assert_eq!(details.name, "Second");
    assert_eq!(details.creator, user(2));
    assert_eq!(AutoShareContract::get_group_payment_history(&state, id).len(), 2);
}

#[test]
fn test_topup_subscription_adds_usages_and_records_the_payment() {
    let mut state = setup();
    let id = group(1);
    AutoShareContract::create(&mut state, id, String::from("Team"), user(1), 2, token());
    state.timestamp = 77;
    AutoShareContract::topup_subscription(&mut state, id, 5, token(), user(2));

    assert_eq!(AutoShareContract::get_remaining_usages(&state, id), 7);
    assert_eq!(AutoShareContract::get_total_usages_paid(&state, id), 7);
    assert_eq!(
        state.transfers.last(),
        Some(&Transfer::Collect { token: token(), from: user(2), amount: 50 })
    );
    let by_payer = AutoShareContract::get_user_payment_history(&state, user(2));
    assert_eq!(
        by_payer,
        vec![PaymentHistory {
            user: user(2),
            group_id: id,
            usages_purchased: 5,
            amount_paid: 50,
            timestamp: 77,
        }]
    );
    let by_group = AutoShareContract::get_group_payment_history(&state, id);
    assert_eq!(by_group.len(), 2);
    assert_eq!(by_group[0].user, user(1));
    assert_eq!(by_group[0].timestamp, 0);
    assert_eq!(by_group[1], by_payer[0]);
}

#[test]
fn test_topup_subscription_errors_in_order() {
    let mut state = setup();
    let id = group(1);
    let other = Address::contract([0x71; 32]);
    AutoShareContract::create(&mut state, id, String::from("Team"), user(1), 2, token());

    assert_eq!(
        autoshare_logic::topup_subscription(&mut state, group(9), 0, other, user(2)),
        Err(Error::InvalidUsageCount)
    );
    assert_eq!(
        autoshare_logic::topup_subscription(&mut state, group(9), 1, other, user(2)),
        Err(Error::NotFound)
    );
    assert_eq!(
        autoshare_logic::topup_subscription(&mut state, id, 1, other, user(2)),
        Err(Error::UnsupportedToken)
    );
    assert_eq!(AutoShareContract::get_remaining_usages(&state, id), 2);
    assert_eq!(state.payments.len(), 1);
}

#[test]
fn test_reduce_usage() {
    let mut state = setup();
    let id = group(1);
    AutoShareContract::create(&mut state, id, String::from("Team"), user(1), 1, token());
    assert_eq!(autoshare_logic::reduce_usage(&mut state, group(9)), Err(Error::NotFound));
    assert_eq!(autoshare_logic::reduce_usage(&mut state, id), Ok(()));
    assert_eq!(AutoShareContract::get_remaining_usages(&state, id), 0);
    assert_eq!(AutoShareContract::get_total_usages_paid(&state, id), 1);
    assert_eq!(autoshare_logic::reduce_usage(&mut state, id), Err(Error::NoUsagesRemaining));
    assert_eq!(AutoShareContract::get_remaining_usages(&state, id), 0);
}

#[test]
fn test_usage_queries_on_a_missing_group() {
    let state = setup();
    assert_eq!(autoshare_logic::get_remaining_usages(&state, group(9)), Err(Error::NotFound));
    assert_eq!(autoshare_logic::get_total_usages_paid(&state, group(9)), Err(Error::NotFound));
}

#[test]
fn test_require_admin() {
    let mut state = mock_all_auths(State::new());
    assert_eq!(autoshare_logic::require_admin(&state, &admin()), Err(Error::Unauthorized));
    AutoShareContract::initialize_admin(&mut state, admin());
    assert_eq!(autoshare_logic::require_admin(&state, &admin()), Ok(()));
    assert_eq!(autoshare_logic::require_admin(&state, &user(1)), Err(Error::Unauthorized));
}

#[test]
fn test_usage_cost() {
    let mut state = setup();
    assert_eq!(autoshare_logic::usage_cost(&state, 7), 70);
    AutoShareContract::set_usage_fee(&mut state, 3, admin());
    assert_eq!(autoshare_logic::usage_cost(&state, 7), 21);
    assert_eq!(autoshare_logic::usage_cost(&state, 0), 0);
}

#[test]
fn test_membership_and_lifecycle_events() {
    let mut state = setup();
    let id = group(1);
    AutoShareContract::create(&mut state, id, String::from("Team"), user(1), 1, token());
    AutoShareContract::update_members(
        &mut state,
        id,
        user(1),
        vec![member(user(2), 100), member(user(3), 0)],
    );
    AutoShareContract::remove_group_member(&mut state, id, user(1), user(3));
    AutoShareContract::deactivate_group(&mut state, id, user(1));
    AutoShareContract::activate_group(&mut state, id, user(1));
    AutoShareContract::transfer_admin(&mut state, admin(), user(9));
    AutoShareContract::withdraw(&mut state, user(9), token(), 5, user(4), 5);
    assert_eq!(
        state.events,
        vec![
            Event::AutoshareCreated(AutoshareCreated { creator: user(1), id }),
            Event::AutoshareUpdated(AutoshareUpdated { updater: user(1), id }),
            Event::AutoshareUpdated(AutoshareUpdated { updater: user(1), id }),
            Event::GroupDeactivated(GroupDeactivated { creator: user(1), id }),
            Event::GroupActivated(GroupActivated { creator: user(1), id }),
            Event::AdminTransferred(AdminTransferred { old_admin: admin(), new_admin: user(9) }),
            Event::Withdrawal(Withdrawal { token: token(), recipient: user(4), amount: 5 }),
        ]
    );
}

#[test]
fn test_failed_operations_leave_the_state_alone() {
    let mut state = setup();
    let id = group(1);
    AutoShareContract::create(&mut state, id, String::from("Team"), user(1), 1, token());
    AutoShareContract::update_members(&mut state, id, user(1), vec![member(user(2), 100)]);
    let groups = AutoShareContract::get_all_groups(&state);
    let events = state.events.clone();
    let transfers = state.transfers.clone();
    let payments = state.payments.clone();

    assert!(autoshare_logic::update_members(&mut state, id, user(1), vec![member(user(3), 10)])
        .is_err());
    assert!(autoshare_logic::add_group_member(&mut state, id, user(1), user(3), 10).is_err());
    assert!(autoshare_logic::remove_group_member(&mut state, id, user(1), user(3)).is_err());
    assert!(autoshare_logic::distribute(&mut state, id, user(5), 10, user(4)).is_err());
    assert!(autoshare_logic::delete_group(&mut state, id, user(1)).is_err());
    assert!(autoshare_logic::withdraw(&mut state, admin(), token(), 10, user(4), 9).is_err());

    assert_eq!(AutoShareContract::get_all_groups(&state), groups);
    assert_eq!(state.events, events);
    assert_eq!(state.transfers, transfers);
    assert_eq!(state.payments, payments);
    assert!(state.distributions.is_empty());
}

#[test]
fn test_well_formed_states_are_recognized() {
    let mut state = setup();
    assert!(state.is_well_formed());
    AutoShareContract::create(&mut state, group(1), String::from("Team"), user(1), 2, token());
    AutoShareContract::update_members(
        &mut state,
        group(1),
        user(1),
        vec![member(user(2), 70), member(user(3), 30)],
    );
    AutoShareContract::remove_group_member(&mut state, group(1), user(1), user(3));
    AutoShareContract::pause(&mut state, admin());
    assert!(state.is_well_formed());
}

#[test]
fn test_ill_formed_states_are_recognized() {
    let base = || {
        let mut state = setup();
        AutoShareContract::create(&mut state, group(1), String::from("A"), user(1), 2, token());
        AutoShareContract::create(&mut state, group(2), String::from("B"), user(1), 2, token());
        state
    };

    let mut state = base();
    state.usage_fee = 0;
    assert!(!state.is_well_formed());

    let mut state = base();
    state.admin = None;
    assert!(state.is_well_formed());
    state.paused = true;
    assert!(!state.is_well_formed());

    let mut state = base();
    state.supported_tokens.push(token());
    assert!(!state.is_well_formed());

    let mut state = base();
    state.groups[1].id = group(1);
    assert!(!state.is_well_formed());

    let mut state = base();
    state.groups[1].usage_count = 3;
    assert!(!state.is_well_formed());

    let mut state = base();
    state.groups[0].members = vec![member(user(2), 60), member(user(3), 41)];
    assert!(!state.is_well_formed());
    state.groups[0].members = vec![member(user(2), 60), member(user(3), 40)];
    assert!(state.is_well_formed());
    state.groups[0].members = vec![member(user(2), 60), member(user(2), 40)];
    assert!(!state.is_well_formed());
    state.groups[0].members = vec![member(user(2), u32::MAX), member(user(3), 2)];
    assert!(!state.is_well_formed());
}

#[test]
fn test_topup_fits() {
    let mut state = setup();
    AutoShareContract::create(&mut state, group(1), String::from("A"), user(1), 10, token());
    assert!(state.topup_fits(group(1), u32::MAX - 10));
    assert!(!state.topup_fits(group(1), u32::MAX - 9));
    assert!(state.topup_fits(group(9), u32::MAX));

    AutoShareContract::topup_subscription(&mut state, group(1), u32::MAX - 10, token(), user(1));
    assert_eq!(AutoShareContract::get_total_usages_paid(&state, group(1)), u32::MAX);
    assert_eq!(AutoShareContract::get_remaining_usages(&state, group(1)), u32::MAX);
    assert!(state.topup_fits(group(1), 0));
    assert!(!state.topup_fits(group(1), 1));
}

#[test]
fn test_entry_points_through_the_interface() {
    let mut state = mock_all_auths(State::new());
    <AutoShareContract as AutoShareTrait>::initialize_admin(&mut state, admin());
    <AutoShareContract as AutoShareTrait>::add_supported_token(&mut state, token(), admin());
    <AutoShareContract as AutoShareTrait>::create(
        &mut state,
        group(1),
        String::from("Team"),
        user(1),
        3,
        token(),
    );
    <AutoShareContract as AutoShareTrait>::update_members(
        &mut state,
        group(1),
        user(1),
        vec![member(user(2), 100)],
    );
    <AutoShareContract as AutoShareTrait>::distribute(&mut state, group(1), token(), 9, user(3));
    assert_eq!(<AutoShareContract as AutoShareTrait>::get_remaining_usages(&state, group(1)), 2);
    assert_eq!(<AutoShareContract as AutoShareTrait>::get_usage_fee(&state), 10);
    assert!(<AutoShareContract as AutoShareTrait>::is_group_member(&state, group(1), user(2)));
    assert_eq!(
        <AutoShareContract as AutoShareTrait>::get(&state, group(1)).members,
        vec![member(user(2), 100)]
    );
}
