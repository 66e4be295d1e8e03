use pallet_supersig::address::into_sub_account;
use pallet_supersig::ledger::{Balances, Currency};
use pallet_supersig::model::Config;
use pallet_supersig::pallet::Pallet;
use pallet_supersig::{AccountId, Balance, Error, Event, LedgerError, Role, ACCOUNT_ID_SIZE};

const PALLET_ID: u64 = u64::from_le_bytes(*b"id/susig");
const EXISTENTIAL_DEPOSIT: Balance = 1_000;
const DEPOSIT_PER_BYTE: Balance = 1_000;
const ALICE: AccountId = 1;
const BOB: AccountId = 2;
const CHARLIE: AccountId = 3;
const PAUL: AccountId = 4;
const DONALD: AccountId = 5;

fn config() -> Config {
    Config {
        pallet_id: PALLET_ID,
        deposit_per_byte: DEPOSIT_PER_BYTE,
        max_call_data_size: 1024,
        max_calls_per_account: 4,
    }
}

fn build() -> (Pallet, Balances) {
    let mut ledger = Balances::new(EXISTENTIAL_DEPOSIT);
    for (who, amount) in [
        (ALICE, 1_000_000),
        (BOB, 100_000),
        (CHARLIE, 101_000),
        (PAUL, 100_000),
        (DONALD, 100_000),
    ] {
        ledger.endow(who, amount).unwrap();
    }
    (Pallet::new(config()), ledger)
}

fn get_supersig_account(index: u128) -> AccountId {
    into_sub_account(PALLET_ID, index).unwrap()
}

fn members_deposit(n: usize) -> Balance {
    (ACCOUNT_ID_SIZE as Balance) * (n as Balance) * DEPOSIT_PER_BYTE
}

fn last_event(pallet: &Pallet) -> Event {
    pallet.events().last().expect("Event expected").clone()
}

fn create_with(pallet: &mut Pallet, ledger: &mut Balances, members: Vec<(AccountId, Role)>) -> AccountId {
    assert_eq!(pallet.create_supersig(ledger, ALICE, members), Ok(()));
    get_supersig_account(pallet.nonce_supersig() - 1)
}

fn standard_trio() -> Vec<(AccountId, Role)> {
    vec![(ALICE, Role::Standard), (BOB, Role::Standard), (CHARLIE, Role::Standard)]
}

#[test]
fn remove_call_remove_call() {
    let (mut pallet, mut ledger) = build();
    let supersig_account = create_with(&mut pallet, &mut ledger, standard_trio());
    assert_eq!(pallet.submit_call(&mut ledger, ALICE, supersig_account, b"test".to_vec()), Ok(()));
    assert!(pallet.calls(0, 0).is_some());
    assert_eq!(pallet.remove_call(&mut ledger, supersig_account, supersig_account, 0), Ok(()));
    assert!(pallet.calls(0, 0).is_none());
    assert_eq!(pallet.votes(0, 0), 0);
    assert!(!pallet.members_votes(0, 0, CHARLIE));
    assert!(!pallet.members_votes(0, 0, BOB));
    assert_eq!(last_event(&pallet), Event::CallRemoved(supersig_account, 0));
    assert_eq!(ledger.reserved_balance(ALICE), 0);
}

#[test]
fn remove_call_non_allowed_remove_call() {
    let (mut pallet, mut ledger) = build();
    let supersig_account = create_with(&mut pallet, &mut ledger, standard_trio());
    assert_eq!(pallet.submit_call(&mut ledger, ALICE, supersig_account, b"test".to_vec()), Ok(()));
    assert_eq!(pallet.remove_call(&mut ledger, BOB, supersig_account, 0), Err(Error::NotAllowed));
}

#[test]
fn remove_call_remove_unknown_call() {
    let (mut pallet, mut ledger) = build();
    let supersig_account = create_with(&mut pallet, &mut ledger, standard_trio());
    assert_eq!(pallet.submit_call(&mut ledger, ALICE, supersig_account, b"test".to_vec()), Ok(()));
    assert_eq!(
        pallet.remove_call(&mut ledger, supersig_account, supersig_account, 1),
        Err(Error::CallNotFound)
    );
}

#[test]
fn tests_remove_call() {
    let (mut pallet, mut ledger) = build();
    let supersig_account =
        create_with(&mut pallet, &mut ledger, vec![(ALICE, Role::Standard), (BOB, Role::Standard)]);
    assert_eq!(pallet.submit_call(&mut ledger, ALICE, supersig_account, vec![0u8]), Ok(()));
    assert!(pallet.calls(0, 0).is_some());
    assert_eq!(pallet.remove_call(&mut ledger, supersig_account, supersig_account, 0), Ok(()));
    assert!(pallet.calls(0, 0).is_none());
}

#[test]
fn tests_non_allowed_remove_call() {
    let (mut pallet, mut ledger) = build();
    let supersig_account =
        create_with(&mut pallet, &mut ledger, vec![(ALICE, Role::Standard), (BOB, Role::Standard)]);
    assert_eq!(pallet.submit_call(&mut ledger, ALICE, supersig_account, vec![0u8]), Ok(()));
    assert_eq!(pallet.remove_call(&mut ledger, BOB, supersig_account, 0), Err(Error::NotAllowed));
}

#[test]
fn tests_remove_unknown_call() {
    let (mut pallet, mut ledger) = build();
    let supersig_account =
        create_with(&mut pallet, &mut ledger, vec![(ALICE, Role::Standard), (BOB, Role::Standard)]);
    assert_eq!(pallet.submit_call(&mut ledger, ALICE, supersig_account, vec![0u8]), Ok(()));
    assert_eq!(
        pallet.remove_call(&mut ledger, supersig_account, supersig_account, 1),
        Err(Error::CallNotFound)
    );
}

#[test]
fn provider_removes_own_call() {
    let (mut pallet, mut ledger) = build();
    let supersig_account = create_with(&mut pallet, &mut ledger, standard_trio());
    assert_eq!(pallet.submit_call(&mut ledger, BOB, supersig_account, b"12345".to_vec()), Ok(()));
    assert_eq!(ledger.reserved_balance(BOB), 5_000);
    assert_eq!(pallet.remove_call(&mut ledger, BOB, supersig_account, 0), Ok(()));
    assert_eq!(ledger.reserved_balance(BOB), 0);
    assert_eq!(ledger.free_balance(BOB), 100_000);
    assert_eq!(pallet.active_proposals(0), 0);
    assert_eq!(pallet.nonce_call(0), 1);
}
