use pallet_supersig::address::into_sub_account;
use pallet_supersig::ledger::{Balances, Currency};
use pallet_supersig::model::Config;
use pallet_supersig::pallet::Pallet;
use pallet_supersig::{AccountId, Balance, Error, Event, LedgerError, Role, ACCOUNT_ID_SIZE};

const PALLET_ID: u64 = u64::from_le_bytes(*b"id/susig");
const EXISTENTIAL_DEPOSIT: Balance = 1_000;
const DEPOSIT_PER_BYTE: Balance = 1_000;
const ALICE: AccountId = 1;
const BOB: AccountId = 2;
const CHARLIE: AccountId = 3;
const PAUL: AccountId = 4;
const DONALD: AccountId = 5;

fn config() -> Config {
    Config {
        pallet_id: PALLET_ID,
        deposit_per_byte: DEPOSIT_PER_BYTE,
        max_call_data_size: 1024,
        max_calls_per_account: 4,
    }
}

fn build() -> (Pallet, Balances) {
    let mut ledger = Balances::new(EXISTENTIAL_DEPOSIT);
    for (who, amount) in [
        (ALICE, 1_000_000),
        (BOB, 100_000),
        (CHARLIE, 101_000),
        (PAUL, 100_000),
        (DONALD, 100_000),
    ] {
        ledger.endow(who, amount).unwrap();
    }
    (Pallet::new(config()), ledger)
}

fn get_supersig_account(index: u128) -> AccountId {
    into_sub_account(PALLET_ID, index).unwrap()
}

fn members_deposit(n: usize) -> Balance {
    (ACCOUNT_ID_SIZE as Balance) * (n as Balance) * DEPOSIT_PER_BYTE
}

fn last_event(pallet: &Pallet) -> Event {
    pallet.events().last().expect("Event expected").clone()
}

fn standard_trio() -> Vec<(AccountId, Role)> {
    vec![(ALICE, Role::Standard), (BOB, Role::Standard), (CHARLIE, Role::Standard)]
}

#[test]
fn create_supersig_create_supersig() {
    let (mut pallet, mut ledger) = build();
    let members = standard_trio();
    assert_eq!(pallet.create_supersig(&mut ledger, ALICE, members.clone()), Ok(()));

    assert_eq!(ledger.free_balance(get_supersig_account(0)), 0);
    let deposit = members_deposit(3);
    assert_eq!(ledger.reserved_balance(get_supersig_account(0)), deposit);
    assert_eq!(pallet.nonce_supersig(), 1);
    assert_eq!(pallet.members(0, ALICE), Role::Standard);
    assert_eq!(pallet.members(0, BOB), Role::Standard);
    assert_eq!(pallet.members(0, CHARLIE), Role::Standard);
    assert_eq!(pallet.total_members(0), 3);
    assert_eq!(ledger.providers(get_supersig_account(0)), 1);
    let mut events = pallet.events().clone();
    assert_eq!(
        events.pop().expect("expect event"),
        Event::MembersAdded(get_supersig_account(0), members)
    );
    assert_eq!(events.pop().expect("expect event"), Event::SupersigCreated(get_supersig_account(0)));
}

#[test]
fn create_supersig_with_master() {
    let (mut pallet, mut ledger) = build();
    let members = vec![(ALICE, Role::Standard), (BOB, Role::Master), (CHARLIE, Role::Master)];
    assert_eq!(pallet.create_supersig(&mut ledger, ALICE, members.clone()), Ok(()));

    assert_eq!(ledger.free_balance(get_supersig_account(0)), 0);
    let deposit = members_deposit(3);
    assert_eq!(ledger.reserved_balance(get_supersig_account(0)), deposit);
    assert_eq!(pallet.nonce_supersig(), 1);
    assert_eq!(pallet.members(0, ALICE), Role::Standard);
    assert_eq!(pallet.members(0, BOB), Role::Master);
    assert_eq!(pallet.members(0, CHARLIE), Role::Master);
    assert_eq!(pallet.total_members(0), 3);
    assert_eq!(ledger.providers(get_supersig_account(0)), 1);
    let mut events = pallet.events().clone();
    assert_eq!(
        events.pop().expect("expect event"),
        Event::MembersAdded(get_supersig_account(0), members)
    );
    assert_eq!(events.pop().expect("expect event"), Event::SupersigCreated(get_supersig_account(0)));
}

#[test]
fn create_supersig_create_multiple_supersig() {
    let (mut pallet, mut ledger) = build();
    let members2 = vec![(ALICE, Role::Standard), (BOB, Role::Master)];
    assert_eq!(pallet.create_supersig(&mut ledger, ALICE, standard_trio()), Ok(()));
    assert_eq!(pallet.create_supersig(&mut ledger, ALICE, members2), Ok(()));

    assert_eq!(pallet.nonce_supersig(), 2);

    assert_eq!(ledger.free_balance(get_supersig_account(0)), 0);
    assert_eq!(ledger.free_balance(get_supersig_account(1)), 0);
    ledger.transfer(ALICE, get_supersig_account(1), 10_000, true).unwrap();

    assert_eq!(ledger.free_balance(get_supersig_account(0)), 0);
    assert_eq!(ledger.free_balance(get_supersig_account(1)), 10_000);

    assert_eq!(pallet.members(0, ALICE), Role::Standard);
    assert_eq!(pallet.members(0, BOB), Role::Standard);
    assert_eq!(pallet.members(0, CHARLIE), Role::Standard);
    assert_eq!(pallet.total_members(0), 3);

    assert_eq!(pallet.members(1, ALICE), Role::Standard);
    assert_eq!(pallet.members(1, BOB), Role::Master);
    assert_eq!(pallet.members(1, CHARLIE), Role::NotMember);
    assert_eq!(pallet.total_members(1), 2);
}

#[test]
fn create_supersig_create_with_empty_list() {
    let (mut pallet, mut ledger) = build();
    assert_eq!(
        pallet.create_supersig(&mut ledger, ALICE, vec![]),
        Err(Error::MustHaveAtLeastOneMember)
    );
    assert_eq!(pallet.nonce_supersig(), 0);
    assert_eq!(ledger.free_balance(ALICE), 1_000_000);
}

#[test]
fn tests_create_supersig() {
    let (mut pallet, mut ledger) = build();
    assert_eq!(pallet.create_supersig(&mut ledger, ALICE, standard_trio()), Ok(()));
    assert_eq!(ledger.free_balance(get_supersig_account(0)), 0);
    assert_eq!(ledger.reserved_balance(get_supersig_account(0)), members_deposit(3));
    assert_eq!(pallet.nonce_supersig(), 1);
    assert_eq!(ledger.consumers(get_supersig_account(0)), 1);
    assert_eq!(ledger.providers(get_supersig_account(0)), 1);
}

#[test]
fn tests_create_multiple_supersig() {
    let (mut pallet, mut ledger) = build();
    assert_eq!(pallet.nonce_supersig(), 0);
    assert_eq!(pallet.create_supersig(&mut ledger, ALICE, standard_trio()), Ok(()));
    assert_eq!(pallet.nonce_supersig(), 1);
    assert_eq!(
        pallet.create_supersig(&mut ledger, ALICE, vec![(ALICE, Role::Standard), (BOB, Role::Standard)]),
        Ok(())
    );
    assert_eq!(pallet.nonce_supersig(), 2);
    assert_eq!(ledger.free_balance(get_supersig_account(0)), 0);
    assert_eq!(ledger.free_balance(get_supersig_account(1)), 0);
    ledger.transfer(ALICE, get_supersig_account(1), 10_000, true).unwrap();
    assert_eq!(ledger.free_balance(get_supersig_account(0)), 0);
    assert_eq!(ledger.free_balance(get_supersig_account(1)), 10_000);
    assert_eq!(pallet.total_members(0), 3);
    assert_eq!(pallet.total_members(1), 2);
}

#[test]
fn tests_create_with_empty_list() {
    let (mut pallet, mut ledger) = build();
    assert_eq!(
        pallet.create_supersig(&mut ledger, ALICE, vec![]),
        Err(Error::MustHaveAtLeastOneMember)
    );
}

#[test]
fn create_supersig_funds_the_existential_deposit_when_larger() {
    let mut ledger = Balances::new(100_000);
    ledger.endow(ALICE, 1_000_000).unwrap();
    let mut pallet = Pallet::new(config());
    assert_eq!(pallet.create_supersig(&mut ledger, ALICE, vec![(ALICE, Role::Standard)]), Ok(()));
    let account = get_supersig_account(0);
    assert_eq!(ledger.reserved_balance(account), 32_000);
    assert_eq!(ledger.free_balance(account), 68_000);
    assert_eq!(ledger.free_balance(ALICE), 900_000);
}

#[test]
fn create_supersig_counts_duplicates_once() {
    let (mut pallet, mut ledger) = build();
    let members = vec![(ALICE, Role::Standard), (ALICE, Role::Master), (BOB, Role::Standard)];
    assert_eq!(pallet.create_supersig(&mut ledger, ALICE, members), Ok(()));
    assert_eq!(pallet.total_members(0), 2);
    assert_eq!(pallet.members(0, ALICE), Role::Master);
    assert_eq!(pallet.total_deposit(0), members_deposit(2));
    assert_eq!(
        last_event(&pallet),
        Event::MembersAdded(get_supersig_account(0), vec![(ALICE, Role::Standard), (BOB, Role::Standard)])
    );
}

#[test]
fn create_supersig_creator_cannot_pay() {
    let (mut pallet, mut ledger) = build();
    let stranger: AccountId = 77;
    assert_eq!(
        pallet.create_supersig(&mut ledger, stranger, vec![(ALICE, Role::Standard)]),
        Err(Error::Ledger(LedgerError::InsufficientBalance))
    );
    assert_eq!(pallet.nonce_supersig(), 0);
    assert_eq!(pallet.total_members(0), 0);
    assert!(pallet.events().is_empty());
}
