use pallet_supersig::address::into_sub_account;
use pallet_supersig::ledger::{Balances, Currency};
use pallet_supersig::model::Config;
use pallet_supersig::pallet::Pallet;
use pallet_supersig::{AccountId, Balance, Error, Event, LedgerError, Role, ACCOUNT_ID_SIZE};

const PALLET_ID: u64 = u64::from_le_bytes(*b"id/susig");
const EXISTENTIAL_DEPOSIT: Balance = 1_000;
const DEPOSIT_PER_BYTE: Balance = 1_000;
const ALICE: AccountId = 1;
const BOB: AccountId = 2;
const CHARLIE: AccountId = 3;
const PAUL: AccountId = 4;
const DONALD: AccountId = 5;

fn config() -> Config {
    Config {
        pallet_id: PALLET_ID,
        deposit_per_byte: DEPOSIT_PER_BYTE,
        max_call_data_size: 1024,
        max_calls_per_account: 4,
    }
}

fn build() -> (Pallet, Balances) {
    let mut ledger = Balances::new(EXISTENTIAL_DEPOSIT);
    for (who, amount) in [
        (ALICE, 1_000_000),
        (BOB, 100_000),
        (CHARLIE, 101_000),
        (PAUL, 100_000),
        (DONALD, 100_000),
    ] {
        ledger.endow(who, amount).unwrap();
    }
    (Pallet::new(config()), ledger)
}

fn get_supersig_account(index: u128) -> AccountId {
    into_sub_account(PALLET_ID, index).unwrap()
}

fn members_deposit(n: usize) -> Balance {
    (ACCOUNT_ID_SIZE as Balance) * (n as Balance) * DEPOSIT_PER_BYTE
}

fn last_event(pallet: &Pallet) -> Event {
    pallet.events().last().expect("Event expected").clone()
}
use pallet_supersig::address::from_sub_account;
use pallet_supersig::deposit::{compute_deposit, compute_vote_weight, reaches_threshold};

#[test]
fn deposit_is_bytes_times_price() {
    assert_eq!(compute_deposit(0, 1_000), Ok(0));
    assert_eq!(compute_deposit(96, 1_000), Ok(96_000));
    assert_eq!(compute_deposit(2, u128::MAX), Ok(u128::MAX));
    assert_eq!(compute_deposit(u32::MAX as usize, 1), Ok(u32::MAX as u128));
}

#[test]
fn deposit_of_an_oversized_count_is_refused() {
    assert_eq!(compute_deposit(u32::MAX as usize + 1, 1), Err(Error::Conversion));
}

#[test]
fn proportional_refund_rounds_the_share_down() {
    assert_eq!(Pallet::compute_proportional_amount_to_unreserve(100, 3, 2), Ok(66));
    assert_eq!(Pallet::compute_proportional_amount_to_unreserve(128_000, 4, 1), Ok(32_000));
    assert_eq!(Pallet::compute_proportional_amount_to_unreserve(5, 10, 3), Ok(0));
    assert_eq!(
        Pallet::compute_proportional_amount_to_unreserve(u128::MAX, 1, 2),
        Err(Error::Overflow)
    );
}

#[test]
fn vote_weights() {
    assert_eq!(compute_vote_weight(Role::Standard, 10), Ok(1));
    assert_eq!(compute_vote_weight(Role::Master, 1), Ok(1));
    assert_eq!(compute_vote_weight(Role::Master, 2), Ok(1));
    assert_eq!(compute_vote_weight(Role::Master, 3), Ok(1));
    assert_eq!(compute_vote_weight(Role::Master, 4), Ok(2));
    assert_eq!(compute_vote_weight(Role::Master, 9), Ok(4));
    assert_eq!(compute_vote_weight(Role::NotMember, 4), Err(Error::NotMember));
}

#[test]
fn simple_majority() {
    assert!(reaches_threshold(1, 1));
    assert!(!reaches_threshold(1, 2));
    assert!(reaches_threshold(2, 2));
    assert!(reaches_threshold(2, 3));
    assert!(!reaches_threshold(2, 4));
    assert!(reaches_threshold(3, 4));
}

#[test]
fn unit_accounts_round_trip() {
    let account = get_supersig_account(7);
    assert_eq!(from_sub_account(account), (PALLET_ID, 7));
    assert_ne!(get_supersig_account(7), get_supersig_account(8));
    assert_eq!(into_sub_account(PALLET_ID, 1u128 << 64), None);
    assert_eq!(from_sub_account(ALICE), (0, ALICE));
}

#[test]
fn role_defaults_to_not_member() {
    assert_eq!(Role::default(), Role::NotMember);
}

#[test]
fn ledger_refuses_what_it_cannot_do() {
    let (_, mut ledger) = build();
    assert_eq!(ledger.minimum_balance(), EXISTENTIAL_DEPOSIT);
    assert_eq!(ledger.endow(99, 10), Err(LedgerError::ExistentialDeposit));
    assert_eq!(ledger.endow(ALICE, u128::MAX), Err(LedgerError::Overflow));
    assert_eq!(ledger.transfer(BOB, 99, 10, true), Err(LedgerError::ExistentialDeposit));
    assert_eq!(ledger.transfer(BOB, CHARLIE, 99_500, false), Err(LedgerError::KeepAlive));
    assert_eq!(ledger.transfer(BOB, CHARLIE, 200_000, true), Err(LedgerError::InsufficientBalance));
    assert_eq!(ledger.inc_consumers(99), Err(LedgerError::NoProviders));
    assert_eq!(ledger.inc_consumers(BOB), Ok(()));
    assert_eq!(ledger.transfer(BOB, CHARLIE, 99_500, true), Err(LedgerError::ConsumerRemaining));
    ledger.dec_consumers(BOB);
    assert_eq!(ledger.consumers(BOB), 0);
    assert_eq!(ledger.free_balance(BOB), 100_000);
}

#[test]
fn ledger_reaps_an_account_below_the_minimum() {
    let (_, mut ledger) = build();
    assert_eq!(ledger.transfer(BOB, CHARLIE, 99_500, true), Ok(()));
    assert!(!ledger.account_exists(BOB));
    assert_eq!(ledger.free_balance(CHARLIE), 200_500);
    assert_eq!(ledger.total_balance(BOB), 0);
}

#[test]
fn ledger_reserve_and_unreserve() {
    let (_, mut ledger) = build();
    assert_eq!(ledger.reserve(BOB, 40_000), Ok(()));
    assert_eq!(ledger.free_balance(BOB), 60_000);
    assert_eq!(ledger.reserved_balance(BOB), 40_000);
    assert_eq!(ledger.total_balance(BOB), 100_000);
    assert_eq!(ledger.unreserve(BOB, 50_000), 10_000);
    assert_eq!(ledger.free_balance(BOB), 100_000);
    assert_eq!(ledger.reserved_balance(BOB), 0);
    assert_eq!(ledger.reserve(BOB, 100_001), Err(LedgerError::InsufficientBalance));
}

#[test]
fn membership_count_matches_listed_members() {
    let (mut pallet, mut ledger) = build();
    assert_eq!(
        pallet.create_supersig(&mut ledger, ALICE, vec![(ALICE, Role::Standard), (BOB, Role::Master)]),
        Ok(())
    );
    let account = get_supersig_account(0);
    ledger.transfer(ALICE, account, 200_000, true).unwrap();
    let check = |pallet: &Pallet| {
        assert_eq!(pallet.list_members(account).unwrap().len() as u32, pallet.total_members(0));
        assert!(pallet.total_members(0) >= 1);
    };
    check(&pallet);
    assert_eq!(
        pallet.add_members(&mut ledger, account, vec![(CHARLIE, Role::Standard), (BOB, Role::Standard), (PAUL, Role::Master)]),
        Ok(())
    );
    check(&pallet);
    assert_eq!(pallet.total_members(0), 4);
    assert_eq!(pallet.remove_members(&mut ledger, account, vec![BOB, DONALD]), Ok(()));
    check(&pallet);
    assert_eq!(pallet.leave_supersig(&mut ledger, PAUL, account), Ok(()));
    check(&pallet);
    assert_eq!(pallet.remove_members(&mut ledger, account, vec![ALICE, CHARLIE]), Err(Error::MustHaveAtLeastOneMember));
    check(&pallet);
    assert_eq!(pallet.total_members(0), 2);
}
