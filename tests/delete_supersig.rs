use pallet_supersig::address::into_sub_account;
use pallet_supersig::ledger::{Balances, Currency};
use pallet_supersig::model::Config;
use pallet_supersig::pallet::Pallet;
use pallet_supersig::{AccountId, Balance, Error, Event, LedgerError, Role, ACCOUNT_ID_SIZE};

const PALLET_ID: u64 = u64::from_le_bytes(*b"id/susig");
const EXISTENTIAL_DEPOSIT: Balance = 1_000;
const DEPOSIT_PER_BYTE: Balance = 1_000;
const ALICE: AccountId = 1;
const BOB: AccountId = 2;
const CHARLIE: AccountId = 3;
const PAUL: AccountId = 4;
const DONALD: AccountId = 5;

fn config() -> Config {
    Config {
        pallet_id: PALLET_ID,
        deposit_per_byte: DEPOSIT_PER_BYTE,
        max_call_data_size: 1024,
        max_calls_per_account: 4,
    }
}

fn build() -> (Pallet, Balances) {
    let mut ledger = Balances::new(EXISTENTIAL_DEPOSIT);
    for (who, amount) in [
        (ALICE, 1_000_000),
        (BOB, 100_000),
        (CHARLIE, 101_000),
        (PAUL, 100_000),
        (DONALD, 100_000),
    ] {
        ledger.endow(who, amount).unwrap();
    }
    (Pallet::new(config()), ledger)
}

fn get_supersig_account(index: u128) -> AccountId {
    into_sub_account(PALLET_ID, index).unwrap()
}

fn members_deposit(n: usize) -> Balance {
    (ACCOUNT_ID_SIZE as Balance) * (n as Balance) * DEPOSIT_PER_BYTE
}

fn last_event(pallet: &Pallet) -> Event {
    pallet.events().last().expect("Event expected").clone()
}

fn create_trio(pallet: &mut Pallet, ledger: &mut Balances) -> AccountId {
    assert_eq!(
        pallet.create_supersig(
            ledger,
            ALICE,
            vec![(ALICE, Role::Standard), (BOB, Role::Standard), (CHARLIE, Role::Standard)],
        ),
        Ok(())
    );
    get_supersig_account(pallet.nonce_supersig() - 1)
}

fn check_deleted(pallet: &Pallet, ledger: &Balances, supersig_account: AccountId) {
    assert_eq!(pallet.total_members(0), 0);
    assert_eq!(pallet.nonce_call(0), 0);
    assert!(pallet.calls(0, 0).is_none());
    assert_eq!(pallet.votes(0, 0), 0);
    assert_eq!(ledger.providers(supersig_account), 0);
}

fn delete_and_pay_bob() {
    let (mut pallet, mut ledger) = build();
    let supersig_account = create_trio(&mut pallet, &mut ledger);
    let bob_balance = ledger.free_balance(BOB);
    let amount: Balance = 10_000;
    assert_eq!(ledger.transfer(ALICE, supersig_account, amount, true), Ok(()));
    assert_eq!(pallet.delete_supersig(&mut ledger, supersig_account, BOB), Ok(()));
    check_deleted(&pallet, &ledger, supersig_account);
    let reserve = members_deposit(3);
    assert_eq!(ledger.free_balance(BOB), bob_balance + amount + reserve);
    assert_eq!(last_event(&pallet), Event::SupersigRemoved(supersig_account));
}

fn refuse_with_locked_funds() {
    let (mut pallet, mut ledger) = build();
    let supersig_account = create_trio(&mut pallet, &mut ledger);
    let amount: Balance = 10_000;
    assert_eq!(ledger.transfer(ALICE, supersig_account, amount, true), Ok(()));
    assert_eq!(ledger.reserve(supersig_account, amount), Ok(()));
    assert_eq!(
        pallet.delete_supersig(&mut ledger, supersig_account, BOB),
        Err(Error::SupersigHaveLockedFunds)
    );
    assert_eq!(pallet.total_members(0), 3);
    assert_eq!(ledger.reserved_balance(supersig_account), members_deposit(3) + amount);
    assert_eq!(ledger.consumers(supersig_account), 1);
}

fn liquidation_leaves_the_account_alive() {
    let (mut pallet, mut ledger) = build();
    let supersig_account = create_trio(&mut pallet, &mut ledger);
    assert_eq!(pallet.submit_call(&mut ledger, ALICE, supersig_account, b"transfer_all".to_vec()), Ok(()));
    assert_eq!(pallet.approve_call(&mut ledger, BOB, supersig_account, 0), Ok(None));
    assert!(pallet.approve_call(&mut ledger, CHARLIE, supersig_account, 0).unwrap().is_some());
    // the host runs the command: move every free token out of the unit account
    let free = ledger.free_balance(supersig_account);
    let failure = ledger.transfer(supersig_account, ALICE, free, true).err().map(Error::Ledger);
    pallet.record_execution_attempt(supersig_account, 0, failure);
    assert!(pallet.calls(0, 0).is_none());
    assert!(ledger.account_exists(supersig_account));
}

#[test]
fn delete_supersig() {
    delete_and_pay_bob();
}

#[test]
fn delete_supersig_with_call() {
    let (mut pallet, mut ledger) = build();
    let supersig_account = create_trio(&mut pallet, &mut ledger);
    let bob_balance = ledger.free_balance(BOB);
    let amount: Balance = 10_000;
    assert_eq!(ledger.transfer(ALICE, supersig_account, amount, true), Ok(()));
    assert_eq!(pallet.submit_call(&mut ledger, BOB, supersig_account, b"test".to_vec()), Ok(()));
    assert_eq!(pallet.delete_supersig(&mut ledger, supersig_account, BOB), Ok(()));
    check_deleted(&pallet, &ledger, supersig_account);
    let reserve = members_deposit(3);
    assert_eq!(ledger.free_balance(BOB), bob_balance + amount + reserve);
    assert_eq!(ledger.reserved_balance(BOB), 0);
    assert_eq!(last_event(&pallet), Event::SupersigRemoved(supersig_account));
}

#[test]
fn delete_supersig_unknown_supersig() {
    let (mut pallet, mut ledger) = build();
    create_trio(&mut pallet, &mut ledger);
    assert_eq!(
        pallet.delete_supersig(&mut ledger, get_supersig_account(1), BOB),
        Err(Error::NotSupersig)
    );
}

#[test]
fn cannot_delete_supersig() {
    refuse_with_locked_funds();
}

#[test]
fn delete_supersig_cannot_liquidate_supersig() {
    liquidation_leaves_the_account_alive();
}

#[test]
fn remove_supersig_remove_supersig() {
    delete_and_pay_bob();
}

#[test]
fn remove_supersig_remove_supersig_not_allowed() {
    let (mut pallet, mut ledger) = build();
    create_trio(&mut pallet, &mut ledger);
    assert_eq!(pallet.delete_supersig(&mut ledger, ALICE, BOB), Err(Error::NotSupersig));
}

#[test]
fn remove_supersig_remove_supersig_unknown_supersig() {
    let (mut pallet, mut ledger) = build();
    create_trio(&mut pallet, &mut ledger);
    assert_eq!(
        pallet.delete_supersig(&mut ledger, get_supersig_account(1), BOB),
        Err(Error::NotSupersig)
    );
}

#[test]
fn remove_supersig_cannot_remove_supersig() {
    refuse_with_locked_funds();
}

#[test]
fn remove_supersig_cannot_liquidate_supersig() {
    liquidation_leaves_the_account_alive();
}

#[test]
fn tests_remove_supersig() {
    let (mut pallet, mut ledger) = build();
    let supersig_account = create_trio(&mut pallet, &mut ledger);
    let bob_balance = ledger.free_balance(BOB);
    assert_eq!(ledger.transfer(ALICE, supersig_account, 10_000, true), Ok(()));
    assert_eq!(ledger.consumers(supersig_account), 1);
    assert_eq!(pallet.delete_supersig(&mut ledger, supersig_account, BOB), Ok(()));
    assert_eq!(pallet.nonce_call(0), 0);
    assert!(pallet.calls(0, 0).is_none());
    assert_eq!(pallet.votes(0, 0), 0);
    assert_eq!(ledger.consumers(supersig_account), 0);
    assert_eq!(ledger.providers(supersig_account), 0);
    assert_eq!(ledger.free_balance(BOB), bob_balance + 10_000 + members_deposit(3));
}

#[test]
fn tests_remove_supersig_not_allowed() {
    let (mut pallet, mut ledger) = build();
    create_trio(&mut pallet, &mut ledger);
    assert_eq!(pallet.delete_supersig(&mut ledger, ALICE, BOB), Err(Error::NotSupersig));
}

#[test]
fn tests_remove_supersig_unknown_supersig() {
    let (mut pallet, mut ledger) = build();
    create_trio(&mut pallet, &mut ledger);
    assert_eq!(
        pallet.delete_supersig(&mut ledger, get_supersig_account(1), BOB),
        Err(Error::NotSupersig)
    );
}

#[test]
fn tests_cannot_remove_supersig() {
    refuse_with_locked_funds();
}

#[test]
fn tests_cannot_liquidate_supersig() {
    liquidation_leaves_the_account_alive();
}

#[test]
fn deleted_unit_no_longer_resolves() {
    let (mut pallet, mut ledger) = build();
    let supersig_account = create_trio(&mut pallet, &mut ledger);
    assert_eq!(pallet.submit_call(&mut ledger, BOB, supersig_account, b"abc".to_vec()), Ok(()));
    assert_eq!(pallet.approve_call(&mut ledger, CHARLIE, supersig_account, 0), Ok(None));
    assert_eq!(pallet.delete_supersig(&mut ledger, supersig_account, DONALD), Ok(()));
    assert_eq!(pallet.get_supersig_id_from_account(supersig_account), Err(Error::NotSupersig));
    assert_eq!(pallet.members(0, ALICE), Role::NotMember);
    assert!(!pallet.members_votes(0, 0, CHARLIE));
    assert_eq!(pallet.active_proposals(0), 0);
    assert_eq!(pallet.total_deposit(0), 0);
    assert_eq!(ledger.reserved_balance(BOB), 0);
    assert_eq!(ledger.free_balance(DONALD), 100_000 + members_deposit(3));
    assert_eq!(
        pallet.submit_call(&mut ledger, BOB, supersig_account, b"abc".to_vec()),
        Err(Error::NotSupersig)
    );
    // the id is never reused
    assert_eq!(pallet.create_supersig(&mut ledger, ALICE, vec![(ALICE, Role::Standard)]), Ok(()));
    assert_eq!(pallet.get_supersig_id_from_account(get_supersig_account(1)), Ok(1));
}
