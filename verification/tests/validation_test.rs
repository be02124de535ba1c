use autoshare::autoshare_logic::validate_members;
use autoshare::base::errors::Error;
use autoshare::base::types::{Address, AddressKind, BytesN, GroupMember};
use autoshare::payout::{compute_payouts, percent_share};

fn member(n: u8, percentage: u32) -> GroupMember {
    GroupMember { address: Address::account([n; 32]), percentage }
}

#[test]
fn test_validate_members_accepts_a_full_split() {
    assert_eq!(validate_members(&vec![member(1, 100)]), Ok(()));
    assert_eq!(validate_members(&vec![member(1, 60), member(2, 40)]), Ok(()));
    assert_eq!(validate_members(&vec![member(1, 50), member(2, 30), member(3, 20)]), Ok(()));
    assert_eq!(validate_members(&vec![member(1, 0), member(2, 100)]), Ok(()));
}

#[test]
fn test_validate_members_rejects_an_empty_list() {
    assert_eq!(validate_members(&Vec::new()), Err(Error::EmptyMembers));
}

#[test]
fn test_validate_members_rejects_a_wrong_total() {
    assert_eq!(validate_members(&vec![member(1, 99)]), Err(Error::InvalidTotalPercentage));
    assert_eq!(validate_members(&vec![member(1, 101)]), Err(Error::InvalidTotalPercentage));
    assert_eq!(
        validate_members(&vec![member(1, 60), member(2, 41)]),
        Err(Error::InvalidTotalPercentage)
    );
    assert_eq!(validate_members(&vec![member(1, 0)]), Err(Error::InvalidTotalPercentage));
}

#[test]
fn test_validate_members_does_not_wrap_around() {
    // 2^32 + 100 would read as 100 in 32 bits.
    let members = vec![member(1, u32::MAX), member(2, 1), member(3, 100)];
    assert_eq!(validate_members(&members), Err(Error::InvalidTotalPercentage));
}

#[test]
fn test_validate_members_rejects_a_repeated_address() {
    assert_eq!(
        validate_members(&vec![member(1, 50), member(1, 50)]),
        Err(Error::DuplicateMember)
    );
    assert_eq!(
        validate_members(&vec![member(1, 40), member(2, 30), member(1, 30)]),
        Err(Error::DuplicateMember)
    );
}

#[test]
fn test_validate_members_reports_a_repeated_address_before_a_wrong_total() {
    assert_eq!(
        validate_members(&vec![member(1, 50), member(1, 60)]),
        Err(Error::DuplicateMember)
    );
}

#[test]
fn test_validate_members_tells_accounts_from_contracts() {
    let account = GroupMember { address: Address::account([1; 32]), percentage: 50 };
    let contract = GroupMember { address: Address::contract([1; 32]), percentage: 50 };
    assert_eq!(validate_members(&vec![account, contract]), Ok(()));
}

#[test]
fn test_addresses_compare_by_kind_and_key() {
    let a = Address::account([7; 32]);
    assert_eq!(a.kind, AddressKind::Account);
    assert_eq!(a.key, [7; 32]);
    assert_eq!(a, Address::account([7; 32]));
    assert_ne!(a, Address::contract([7; 32]));
    let mut key = [7u8; 32];
    key[31] = 8;
    assert_ne!(a, Address::account(key));
    assert_eq!(Address::contract(key).kind, AddressKind::Contract);
}

#[test]
fn test_identifiers_compare_byte_for_byte() {
    let id = BytesN::from_array(&[1u8; 32]);
    assert_eq!(id, BytesN::from_array(&[1u8; 32]));
    assert_eq!(id.to_array(), [1u8; 32]);
    let mut bytes = [1u8; 32];
    bytes[0] = 0;
    assert_ne!(id, BytesN::from_array(&bytes));
    assert_eq!(BytesN::from_array(&[1u8, 2, 3]).to_array(), [1, 2, 3]);
}

#[test]
fn test_percent_share_rounds_down() {
    assert_eq!(percent_share(7, 50), 3);
    assert_eq!(percent_share(7, 30), 2);
    assert_eq!(percent_share(1000, 60), 600);
    assert_eq!(percent_share(1, 99), 0);
    assert_eq!(percent_share(0, 100), 0);
    assert_eq!(percent_share(199, 100), 199);
    assert_eq!(percent_share(199, 0), 0);
    assert_eq!(percent_share(i128::MAX, 100), i128::MAX);
    assert_eq!(
        percent_share(i128::MAX, 1),
        1_701_411_834_604_692_317_316_873_037_158_841_057
    );
}

#[test]
fn test_compute_payouts_of_an_incomplete_split() {
    let paid = compute_payouts(&vec![member(1, 10), member(2, 20)], 100);
    let amounts: Vec<i128> = paid.iter().map(|p| p.amount).collect();
    assert_eq!(amounts, vec![10, 90]);
    assert_eq!(paid[1].address, Address::account([2; 32]));
}

#[test]
fn test_error_codes() {
    let all = [
        Error::InvalidInput,
        Error::AlreadyExists,
        Error::NotFound,
        Error::UnsupportedToken,
        Error::InsufficientPayment,
        Error::NoUsagesRemaining,
        Error::InvalidUsageCount,
        Error::Unauthorized,
        Error::InsufficientBalance,
        Error::InvalidAmount,
        Error::ContractPaused,
        Error::AlreadyPaused,
        Error::NotPaused,
        Error::NotAuthorized,
        Error::InvalidTotalPercentage,
        Error::EmptyMembers,
        Error::DuplicateMember,
        Error::GroupInactive,
        Error::GroupAlreadyActive,
        Error::GroupAlreadyInactive,
        Error::InsufficientContractBalance,
        Error::MemberNotFound,
        Error::GroupNotDeactivated,
    ];
    for (i, e) in all.iter().enumerate() {
        assert_eq!(e.code() as usize, i + 1);
    }
    assert_eq!(Error::ContractPaused.code(), 11);
    assert_eq!(Error::GroupNotDeactivated.code(), 23);
}
