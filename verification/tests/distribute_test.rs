use autoshare::autoshare_logic;
use autoshare::base::errors::Error;
use autoshare::base::events::{Distribution, Event};
use autoshare::base::types::{Address, BytesN, GroupMember, MemberAmount};
use autoshare::state::{State, Transfer};
use autoshare::AutoShareContract;

/// The contract's own address, under which it holds funds.
fn custody() -> Address {
    Address::contract([0xcc; 32])
}

/// A small token ledger standing in for the host: it holds balances and
/// carries out the transfers the contract has requested.
struct Bank {
    balances: Vec<(Address, Address, i128)>,
    settled: usize,
}

impl Bank {
    fn new() -> Bank {
        Bank { balances: Vec::new(), settled: 0 }
    }

    fn balance(&self, token: &Address, holder: &Address) -> i128 {
        self.balances
            .iter()
            .filter(|(t, h, _)| t == token && h == holder)
            .map(|(_, _, amount)| *amount)
            .sum()
    }

    fn mint(&mut self, token: &Address, holder: &Address, amount: i128) {
        self.balances.push((*token, *holder, amount));
    }

    fn transfer(&mut self, token: &Address, from: &Address, to: &Address, amount: i128) {
        assert!(amount > 0, "invalid amount");
        assert!(self.balance(token, from) >= amount, "insufficient balance");
        self.balances.push((*token, *from, -amount));
        self.balances.push((*token, *to, amount));
    }

    /// Carries out the transfers requested since the last call.
    fn settle(&mut self, state: &State) {
        while self.settled < state.transfers.len() {
            match state.transfers[self.settled] {
                Transfer::Collect { token, from, amount } => {
                    self.transfer(&token, &from, &custody(), amount)
                }
                Transfer::Pay { token, to, amount } => {
                    self.transfer(&token, &custody(), &to, amount)
                }
            }
            self.settled += 1;
        }
    }
}

struct TestEnv {
    state: State,
    bank: Bank,
    admin: Address,
    users: Vec<Address>,
    mock_tokens: Vec<Address>,
    generated: u8,
}

impl TestEnv {
    /// A fresh address, different from every other one of the test.
    fn generate(&mut self) -> Address {
        self.generated += 1;
        let address = Address::account([self.generated; 32]);
        self.state.authorize(address);
        address
    }
}

/// A contract with an admin, three users and one supported token. Every
/// party of the test has authorized what is done in its name.
fn setup_test_env() -> TestEnv {
    let mut state = State::new();
    let admin = Address::account([0xad; 32]);
    let users = vec![
        Address::account([0xe1; 32]),
        Address::account([0xe2; 32]),
        Address::account([0xe3; 32]),
    ];
    state.authorize(admin);
    for user in &users {
        state.authorize(*user);
    }
    AutoShareContract::initialize_admin(&mut state, admin);
    let token = Address::contract([0x70; 32]);
    AutoShareContract::add_supported_token(&mut state, token, admin);
    TestEnv { state, bank: Bank::new(), admin, users, mock_tokens: vec![token], generated: 0 }
}

/// A contract that has only been given an admin.
fn bare_env() -> TestEnv {
    let mut state = State::new();
    let admin = Address::account([0xad; 32]);
    state.authorize(admin);
    AutoShareContract::initialize_admin(&mut state, admin);
    TestEnv {
        state,
        bank: Bank::new(),
        admin,
        users: Vec::new(),
        mock_tokens: Vec::new(),
        generated: 0,
    }
}

/// Lets the accounts numbered one to nine authorize what is done in their
/// name.
fn mock_all_auths(mut state: State) -> State {
    for n in 1..=9 {
        state.authorize(Address::account([n; 32]));
    }
    state
}

fn mint_tokens(env: &mut TestEnv, token: &Address, to: &Address, amount: i128) {
    env.bank.mint(token, to, amount);
}

fn assert_balance(env: &TestEnv, token: &Address, holder: &Address, expected: i128) {
    assert_eq!(env.bank.balance(token, holder), expected);
}

fn member(address: Address, percentage: u32) -> GroupMember {
    GroupMember { address, percentage }
}

/// Creates a group whose identifier is derived from `usages`, paid by
/// `creator`, and installs `members`.
fn create_test_group(
    env: &mut TestEnv,
    creator: &Address,
    members: &Vec<GroupMember>,
    usages: u32,
    token: &Address,
) -> BytesN<32> {
    let mut bytes = [0u8; 32];
    bytes[..4].copy_from_slice(&usages.to_be_bytes());
    let id = BytesN::from_array(&bytes);
    mint_tokens(env, token, creator, 10_000_000);
    autoshare_logic::create_autoshare(
        &mut env.state,
        id,
        String::from("Test Group"),
        *creator,
        usages,
        *token,
    )
    .unwrap();
    env.bank.settle(&env.state);
    autoshare_logic::update_members(&mut env.state, id, *creator, members.clone()).unwrap();
    id
}

fn create_helper(
    env: &mut TestEnv,
    id: &BytesN<32>,
    name: &str,
    creator: &Address,
    members: &Vec<GroupMember>,
) -> Result<(), Error> {
    let token = env.mock_tokens[0];
    mint_tokens(env, &token, creator, 10_000_000);
    autoshare_logic::create_autoshare(&mut env.state, *id, String::from(name), *creator, 1, token)?;
    env.bank.settle(&env.state);
    autoshare_logic::update_members(&mut env.state, *id, *creator, members.clone())
}

#[test]
fn test_distribute_splits_payment_and_decrements_usage() {
    let mut env = setup_test_env();
    let token = env.mock_tokens[0];
    let member1 = env.generate();
    let member2 = env.generate();
    let member3 = env.generate();
    let members = vec![member(member1, 50), member(member2, 30), member(member3, 20)];

    let creator = env.users[0];
    let usages = 2u32;
    let id = create_test_group(&mut env, &creator, &members, usages, &token);

    let sender = env.users[1];
    let amount: i128 = 1000;
    mint_tokens(&mut env, &token, &sender, amount);
    let sender_start = env.bank.balance(&token, &sender);

    AutoShareContract::distribute(&mut env.state, id, token, amount, sender);
    env.bank.settle(&env.state);

    assert_balance(&env, &token, &member1, 500);
    assert_balance(&env, &token, &member2, 300);
    assert_balance(&env, &token, &member3, 200);

    let sender_end = env.bank.balance(&token, &sender);
    assert_eq!(sender_start - amount, sender_end);

    let remaining = AutoShareContract::get_remaining_usages(&env.state, id);
    assert_eq!(remaining, usages - 1);

    let group_distributions = AutoShareContract::get_group_distributions(&env.state, id);
    assert_eq!(group_distributions.len(), 1);
    let dist = &group_distributions[0];
    assert_eq!(dist.group_id, id);
    assert_eq!(dist.sender, sender);
    assert_eq!(dist.total_amount, amount);
    assert_eq!(dist.token, token);
    assert_eq!(dist.distribution_number, 0);
    assert_eq!(dist.member_amounts.len(), 3);

    let member1_dists = AutoShareContract::get_member_distributions(&env.state, member1);
    assert_eq!(member1_dists.len(), 1);
    assert_eq!(member1_dists[0].member_amounts[0].amount, 500);
}

#[test]
fn test_distribute_fails_when_group_inactive() {
    let mut env = setup_test_env();
    let token = env.mock_tokens[0];
    let member1 = env.generate();
    let member2 = env.generate();
    let members = vec![member(member1, 60), member(member2, 40)];
    let creator = env.users[0];
    let id = create_test_group(&mut env, &creator, &members, 1, &token);

    AutoShareContract::deactivate_group(&mut env.state, id, creator);

    let sender = env.users[1];
    mint_tokens(&mut env, &token, &sender, 500);
    let requested = env.state.transfers.len();
    assert_eq!(
        autoshare_logic::distribute(&mut env.state, id, token, 500, sender),
        Err(Error::GroupInactive)
    );
    assert_eq!(env.state.transfers.len(), requested);
    assert_eq!(AutoShareContract::get_remaining_usages(&env.state, id), 1);
}

#[test]
fn test_distribute_sixty_forty() {
    let mut env = setup_test_env();
    let token = env.mock_tokens[0];
    let a = env.generate();
    let b = env.generate();
    let members = vec![member(a, 60), member(b, 40)];
    let creator = env.users[0];
    let id = create_test_group(&mut env, &creator, &members, 1, &token);

    let sender = env.users[1];
    mint_tokens(&mut env, &token, &sender, 1000);
    let requested = env.state.transfers.len();
    AutoShareContract::distribute(&mut env.state, id, token, 1000, sender);
    assert_eq!(
        env.state.transfers[requested..],
        [
            Transfer::Collect { token, from: sender, amount: 1000 },
            Transfer::Pay { token, to: a, amount: 600 },
            Transfer::Pay { token, to: b, amount: 400 },
        ]
    );
    env.bank.settle(&env.state);
    assert_balance(&env, &token, &a, 600);
    assert_balance(&env, &token, &b, 400);
    assert_balance(&env, &token, &sender, 0);
}

#[test]
fn test_distribute_gives_the_remainder_to_the_last_member() {
    let mut env = setup_test_env();
    let token = env.mock_tokens[0];
    let a = env.generate();
    let b = env.generate();
    let c = env.generate();
    let members = vec![member(a, 50), member(b, 30), member(c, 20)];
    let creator = env.users[0];
    let id = create_test_group(&mut env, &creator, &members, 1, &token);

    let sender = env.users[1];
    mint_tokens(&mut env, &token, &sender, 7);
    AutoShareContract::distribute(&mut env.state, id, token, 7, sender);
    env.bank.settle(&env.state);
    assert_balance(&env, &token, &a, 3);
    assert_balance(&env, &token, &b, 2);
    assert_balance(&env, &token, &c, 2);

    let record = &AutoShareContract::get_group_distributions(&env.state, id)[0];
    assert_eq!(
        record.member_amounts,
        vec![
            MemberAmount { address: a, amount: 3 },
            MemberAmount { address: b, amount: 2 },
            MemberAmount { address: c, amount: 2 },
        ]
    );
    assert_eq!(
        env.state.events.last(),
        Some(&Event::Distribution(Distribution { id, token, sender, amount: 7 }))
    );
}

#[test]
fn test_distribute_skips_members_whose_share_is_zero() {
    let mut env = setup_test_env();
    let token = env.mock_tokens[0];
    let a = env.generate();
    let b = env.generate();
    let c = env.generate();
    let members = vec![member(a, 1), member(b, 0), member(c, 99)];
    let creator = env.users[0];
    let id = create_test_group(&mut env, &creator, &members, 1, &token);

    let sender = env.users[1];
    mint_tokens(&mut env, &token, &sender, 50);
    let requested = env.state.transfers.len();
    AutoShareContract::distribute(&mut env.state, id, token, 50, sender);
    assert_eq!(
        env.state.transfers[requested..],
        [
            Transfer::Collect { token, from: sender, amount: 50 },
            Transfer::Pay { token, to: c, amount: 50 },
        ]
    );
    let record = &AutoShareContract::get_group_distributions(&env.state, id)[0];
    assert_eq!(record.member_amounts, vec![MemberAmount { address: c, amount: 50 }]);
    assert!(AutoShareContract::get_member_distributions(&env.state, a).is_empty());
    assert!(AutoShareContract::get_member_distributions(&env.state, b).is_empty());
    assert_eq!(AutoShareContract::get_member_distributions(&env.state, c).len(), 1);
}

#[test]
fn test_distribute_last_member_with_zero_percent_gets_the_remainder() {
    let mut env = setup_test_env();
    let token = env.mock_tokens[0];
    let a = env.generate();
    let b = env.generate();
    let members = vec![member(a, 100), member(b, 0)];
    let creator = env.users[0];
    let id = create_test_group(&mut env, &creator, &members, 2, &token);
    let sender = env.users[1];

    AutoShareContract::distribute(&mut env.state, id, token, 10, sender);
    let record = &AutoShareContract::get_group_distributions(&env.state, id)[0];
    assert_eq!(record.member_amounts, vec![MemberAmount { address: a, amount: 10 }]);

    let swapped = vec![member(b, 0), member(a, 100)];
    AutoShareContract::update_members(&mut env.state, id, creator, swapped);
    AutoShareContract::distribute(&mut env.state, id, token, 10, sender);
    let record = &AutoShareContract::get_group_distributions(&env.state, id)[1];
    assert_eq!(record.member_amounts, vec![MemberAmount { address: a, amount: 10 }]);
}

#[test]
fn test_distribute_the_largest_amount() {
    let mut env = setup_test_env();
    let token = env.mock_tokens[0];
    let a = env.generate();
    let b = env.generate();
    let c = env.generate();
    let members = vec![member(a, 33), member(b, 33), member(c, 34)];
    let creator = env.users[0];
    let id = create_test_group(&mut env, &creator, &members, 1, &token);
    let sender = env.users[1];

    let amount = i128::MAX;
    assert_eq!(autoshare_logic::distribute(&mut env.state, id, token, amount, sender), Ok(()));
    let record = &AutoShareContract::get_group_distributions(&env.state, id)[0];
    let third = 56_146_590_541_954_846_471_456_810_226_241_754_889i128;
    assert_eq!(third, (amount / 100) * 33 + ((amount % 100) * 33) / 100);
    assert_eq!(
        record.member_amounts,
        vec![
            MemberAmount { address: a, amount: third },
            MemberAmount { address: b, amount: third },
            MemberAmount { address: c, amount: amount - third - third },
        ]
    );
    let paid: i128 = record.member_amounts.iter().map(|p| p.amount).sum();
    assert_eq!(paid, amount);
}

#[test]
fn test_distribute_pays_out_exactly_the_amount() {
    let token = Address::contract([0x70; 32]);
    let splits: [&[u32]; 5] =
        [&[100], &[1, 99], &[33, 33, 34], &[10, 20, 30, 40], &[7, 0, 13, 80, 0]];
    for split in splits {
        for amount in [1i128, 2, 3, 7, 99, 100, 101, 1000, 12_345_678_901] {
            let mut env = setup_test_env();
            let creator = env.users[0];
            let sender = env.users[1];
            let mut members = Vec::new();
            for p in split {
                members.push(member(env.generate(), *p));
            }
            let id = create_test_group(&mut env, &creator, &members, 1, &token);
            mint_tokens(&mut env, &token, &sender, amount);
            AutoShareContract::distribute(&mut env.state, id, token, amount, sender);
            env.bank.settle(&env.state);

            let record = &AutoShareContract::get_group_distributions(&env.state, id)[0];
            let paid: i128 = record.member_amounts.iter().map(|p| p.amount).sum();
            assert_eq!(paid, amount);
            assert!(record.member_amounts.iter().all(|p| p.amount > 0));
            let received: i128 =
                members.iter().map(|m| env.bank.balance(&token, &m.address)).sum();
            assert_eq!(received, amount);
            assert_balance(&env, &token, &sender, 0);
            for (i, m) in members.iter().enumerate() {
                if i + 1 < members.len() {
                    assert_balance(&env, &token, &m.address, amount * (m.percentage as i128) / 100);
                }
            }
        }
    }
}

#[test]
fn test_distribute_errors_in_order() {
    let mut env = setup_test_env();
    let token = env.mock_tokens[0];
    let unsupported = env.generate();
    let creator = env.users[0];
    let sender = env.users[1];
    let id = BytesN::from_array(&[1u8; 32]);
    let missing = BytesN::from_array(&[2u8; 32]);
    AutoShareContract::create(&mut env.state, id, String::from("G"), creator, 1, token);

    assert_eq!(
        autoshare_logic::distribute(&mut env.state, missing, unsupported, 0, sender),
        Err(Error::InvalidAmount)
    );
    assert_eq!(
        autoshare_logic::distribute(&mut env.state, missing, unsupported, -5, sender),
        Err(Error::InvalidAmount)
    );
    assert_eq!(
        autoshare_logic::distribute(&mut env.state, missing, unsupported, 5, sender),
        Err(Error::UnsupportedToken)
    );
    assert_eq!(
        autoshare_logic::distribute(&mut env.state, missing, token, 5, sender),
        Err(Error::NotFound)
    );
    assert_eq!(
        autoshare_logic::distribute(&mut env.state, id, token, 5, sender),
        Err(Error::EmptyMembers)
    );
    let a = env.generate();
    AutoShareContract::update_members(&mut env.state, id, creator, vec![member(a, 100)]);
    assert_eq!(autoshare_logic::distribute(&mut env.state, id, token, 5, sender), Ok(()));
    assert_eq!(
        autoshare_logic::distribute(&mut env.state, id, token, 5, sender),
        Err(Error::NoUsagesRemaining)
    );
    assert_eq!(AutoShareContract::get_remaining_usages(&env.state, id), 0);
    assert_eq!(AutoShareContract::get_group_distributions(&env.state, id).len(), 1);
}

#[test]
fn test_each_distribution_spends_one_usage_and_is_numbered() {
    let mut env = setup_test_env();
    let token = env.mock_tokens[0];
    let creator = env.users[0];
    let sender = env.users[1];
    let a = env.generate();
    let id = create_test_group(&mut env, &creator, &vec![member(a, 100)], 2, &token);

    AutoShareContract::distribute(&mut env.state, id, token, 1, sender);
    assert_eq!(AutoShareContract::get_remaining_usages(&env.state, id), 1);
    AutoShareContract::topup_subscription(&mut env.state, id, 5, token, creator);
    assert_eq!(AutoShareContract::get_remaining_usages(&env.state, id), 6);
    assert_eq!(AutoShareContract::get_total_usages_paid(&env.state, id), 7);
    AutoShareContract::distribute(&mut env.state, id, token, 1_000_000, sender);
    assert_eq!(AutoShareContract::get_remaining_usages(&env.state, id), 5);
    AutoShareContract::distribute(&mut env.state, id, token, 3, sender);
    assert_eq!(AutoShareContract::get_remaining_usages(&env.state, id), 4);
    assert_eq!(AutoShareContract::get_total_usages_paid(&env.state, id), 7);

    let numbers: Vec<u32> = AutoShareContract::get_group_distributions(&env.state, id)
        .iter()
        .map(|d| d.distribution_number)
        .collect();
    assert_eq!(numbers, vec![0, 1, 2]);
}

#[test]
fn test_distribute_after_removing_a_member() {
    let mut env = setup_test_env();
    let token = env.mock_tokens[0];
    let creator = env.users[0];
    let sender = env.users[1];
    let a = env.generate();
    let b = env.generate();
    let c = env.generate();
    let members = vec![member(a, 60), member(b, 40), member(c, 0)];
    let id = create_test_group(&mut env, &creator, &members, 3, &token);

    // Removing a member that held nothing leaves a complete split.
    AutoShareContract::remove_group_member(&mut env.state, id, creator, c);
    assert_eq!(autoshare_logic::distribute(&mut env.state, id, token, 1000, sender), Ok(()));
    let record = &AutoShareContract::get_group_distributions(&env.state, id)[0];
    assert_eq!(
        record.member_amounts,
        vec![MemberAmount { address: a, amount: 600 }, MemberAmount { address: b, amount: 400 }]
    );

    // Removing a member that held a share is accepted as it is ...
    assert_eq!(autoshare_logic::remove_group_member(&mut env.state, id, creator, b), Ok(()));
    let left = AutoShareContract::get_group_members(&env.state, id);
    assert_eq!(left, vec![member(a, 60)]);
    assert!(left.iter().map(|m| m.percentage).sum::<u32>() < 100);

    // ... and the distribution checks the split it finds.
    assert_eq!(
        autoshare_logic::distribute(&mut env.state, id, token, 1000, sender),
        Err(Error::InvalidTotalPercentage)
    );
    assert_eq!(AutoShareContract::get_remaining_usages(&env.state, id), 2);

    AutoShareContract::update_members(&mut env.state, id, creator, vec![member(a, 100)]);
    assert_eq!(autoshare_logic::distribute(&mut env.state, id, token, 1000, sender), Ok(()));
    assert_eq!(AutoShareContract::get_remaining_usages(&env.state, id), 1);
}

#[test]
fn test_distribution_history_by_group_and_by_member() {
    let mut env = setup_test_env();
    let token = env.mock_tokens[0];
    let creator = env.users[0];
    let sender = env.users[1];
    let a = env.generate();
    let b = env.generate();
    let first = create_test_group(&mut env, &creator, &vec![member(a, 100)], 1, &token);
    let second =
        create_test_group(&mut env, &creator, &vec![member(a, 50), member(b, 50)], 2, &token);

    env.state.timestamp = 10;
    AutoShareContract::distribute(&mut env.state, first, token, 100, sender);
    env.state.timestamp = 20;
    AutoShareContract::distribute(&mut env.state, second, token, 100, sender);
    env.state.timestamp = 30;
    AutoShareContract::distribute(&mut env.state, second, token, 1, sender);

    let of_first = AutoShareContract::get_group_distributions(&env.state, first);
    assert_eq!(of_first.len(), 1);
    assert_eq!(of_first[0].timestamp, 10);
    assert_eq!(of_first[0].distribution_number, 0);

    let of_second = AutoShareContract::get_group_distributions(&env.state, second);
    assert_eq!(of_second.len(), 2);
    assert_eq!(of_second[0].timestamp, 20);
    assert_eq!(of_second[0].distribution_number, 0);
    assert_eq!(of_second[1].timestamp, 30);
    assert_eq!(of_second[1].distribution_number, 1);
    // Half of one rounds down to nothing: the last member gets it all.
    assert_eq!(of_second[1].member_amounts, vec![MemberAmount { address: b, amount: 1 }]);

    let of_a = AutoShareContract::get_member_distributions(&env.state, a);
    assert_eq!(of_a.len(), 2);
    assert_eq!(of_a[0].group_id, first);
    assert_eq!(of_a[1].group_id, second);
    assert_eq!(of_a[1].timestamp, 20);
    let of_b = AutoShareContract::get_member_distributions(&env.state, b);
    assert_eq!(of_b.len(), 2);
    assert_eq!(of_b[0].group_id, second);
    assert_eq!(of_b[1].timestamp, 30);
    assert!(AutoShareContract::get_member_distributions(&env.state, sender).is_empty());
    assert!(AutoShareContract::get_group_distributions(
        &env.state,
        BytesN::from_array(&[9u8; 32])
    )
    .is_empty());
}
