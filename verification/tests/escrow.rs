use trustbridge_escrow::account::AccountId;
use trustbridge_escrow::ledger::Ledger;
use trustbridge_escrow::registry::Error;
use trustbridge_escrow::registry::EscrowCreated;
use trustbridge_escrow::registry::FundsReleased;
use trustbridge_escrow::registry::TrustbridgeContract;

fn acct(n: u128) -> AccountId {
    AccountId { hi: 0, lo: n }
}

#[test]
fn create_assigns_sequential_identifiers() {
    let admin = acct(1);
    let mut reg = TrustbridgeContract::new(admin);
    let mut led = Ledger::new();
    for n in 0..3u32 {
        let owner = acct(10 + n as u128);
        let beneficiary = acct(20 + n as u128);
        let arbiter = acct(30 + n as u128);
        let amount = 100 + n as u128;
        let created = reg
            .create_escrow(owner, beneficiary, arbiter, amount, &mut led)
            .unwrap();
        assert_eq!(created, EscrowCreated { escrow_id: n, amount });
    }
    assert_eq!(reg.next_escrow_id, 3);
    for n in 0..3u32 {
        let record = reg.get_escrow(n).unwrap();
        assert_eq!(record.owner, acct(10 + n as u128));
        assert_eq!(record.beneficiary, acct(20 + n as u128));
        assert_eq!(record.arbiter, acct(30 + n as u128));
        assert_eq!(record.amount, 100 + n as u128);
        assert!(record.is_active);
    }
}

#[test]
fn query_absent_identifier_returns_none() {
    let mut reg = TrustbridgeContract::new(acct(1));
    assert!(reg.get_escrow(0).is_none());
    let mut led = Ledger::new();
    reg.create_escrow(acct(2), acct(3), acct(4), 5, &mut led)
        .unwrap();
    assert!(reg.get_escrow(1).is_none());
    assert!(reg.get_escrow(u32::MAX).is_none());
}

#[test]
fn release_by_non_arbiter_is_refused() {
    let owner = acct(2);
    let beneficiary = acct(3);
    let arbiter = acct(4);
    let mut reg = TrustbridgeContract::new(acct(1));
    let mut led = Ledger::new();
    reg.create_escrow(owner, beneficiary, arbiter, 100, &mut led)
        .unwrap();
    let refused = reg.release_funds(owner, 0, &mut led);
    assert_eq!(refused, Err(Error::NotAuthorized));
    assert!(reg.get_escrow(0).unwrap().is_active);
    assert_eq!(led.custodied, 100);
    assert_eq!(led.balance_of(beneficiary), 0);
}

#[test]
fn release_by_arbiter_moves_exactly_the_amount() {
    let owner = acct(2);
    let beneficiary = acct(3);
    let arbiter = acct(4);
    let mut reg = TrustbridgeContract::new(acct(1));
    let mut led = Ledger::new();
    reg.create_escrow(owner, beneficiary, arbiter, 250, &mut led)
        .unwrap();
    let released = reg.release_funds(arbiter, 0, &mut led);
    assert_eq!(
        released,
        Ok(FundsReleased {
            escrow_id: 0,
            amount: 250
        })
    );
    assert!(!reg.get_escrow(0).unwrap().is_active);
    assert_eq!(led.custodied, 0);
    assert_eq!(led.balance_of(beneficiary), 250);
}

#[test]
fn second_release_is_refused_and_moves_nothing() {
    let beneficiary = acct(3);
    let arbiter = acct(4);
    let mut reg = TrustbridgeContract::new(acct(1));
    let mut led = Ledger::new();
    reg.create_escrow(acct(2), beneficiary, arbiter, 70, &mut led)
        .unwrap();
    assert!(reg.release_funds(arbiter, 0, &mut led).is_ok());
    let again = reg.release_funds(arbiter, 0, &mut led);
    assert_eq!(again, Err(Error::NotAuthorized));
    assert_ne!(again, Err(Error::EscrowNotActive));
    assert_eq!(led.balance_of(beneficiary), 70);
    assert_eq!(led.custodied, 0);
}

#[test]
fn release_of_unknown_identifier_reports_not_found() {
    let mut reg = TrustbridgeContract::new(acct(1));
    let mut led = Ledger::new();
    assert_eq!(
        reg.release_funds(acct(4), 0, &mut led),
        Err(Error::EscrowNotFound)
    );
    reg.create_escrow(acct(2), acct(3), acct(4), 9, &mut led)
        .unwrap();
    assert_eq!(
        reg.release_funds(acct(4), 7, &mut led),
        Err(Error::EscrowNotFound)
    );
}

#[test]
fn short_custody_reports_insufficient_funds_and_changes_nothing() {
    let beneficiary = acct(3);
    let arbiter = acct(4);
    let mut reg = TrustbridgeContract::new(acct(1));
    let mut led = Ledger::new();
    reg.create_escrow(acct(2), beneficiary, arbiter, 100, &mut led)
        .unwrap();
    // Custody drained below the escrowed amount behind the registry's back.
    led.custodied = 40;
    let refused = reg.release_funds(arbiter, 0, &mut led);
    assert_eq!(refused, Err(Error::InsufficientFunds));
    assert!(reg.get_escrow(0).unwrap().is_active);
    assert_eq!(led.custodied, 40);
    assert_eq!(led.balance_of(beneficiary), 0);
}

#[test]
fn overfull_beneficiary_reports_insufficient_funds() {
    let beneficiary = acct(3);
    let arbiter = acct(4);
    let mut reg = TrustbridgeContract::new(acct(1));
    let mut led = Ledger::new();
    assert!(led.deposit(beneficiary, u128::MAX));
    reg.create_escrow(acct(2), beneficiary, arbiter, 1, &mut led)
        .unwrap();
    let refused = reg.release_funds(arbiter, 0, &mut led);
    assert_eq!(refused, Err(Error::InsufficientFunds));
    assert!(reg.get_escrow(0).unwrap().is_active);
    assert_eq!(led.balance_of(beneficiary), u128::MAX);
}

#[test]
fn end_to_end_escrow_lifecycle() {
    let caller = acct(7);
    let b = acct(8);
    let a = acct(9);
    let mut reg = TrustbridgeContract::new(acct(1));
    let mut led = Ledger::new();
    let created = reg.create_escrow(caller, b, a, 100, &mut led).unwrap();
    assert_eq!(
        created,
        EscrowCreated {
            escrow_id: 0,
            amount: 100
        }
    );
    let record = reg.get_escrow(0).unwrap();
    assert_eq!(record.amount, 100);
    assert_eq!(record.owner, caller);
    assert_eq!(record.beneficiary, b);
    assert_eq!(record.arbiter, a);
    assert!(record.is_active);
    let before = led.balance_of(b);
    let released = reg.release_funds(a, 0, &mut led);
    assert_eq!(
        released,
        Ok(FundsReleased {
            escrow_id: 0,
            amount: 100
        })
    );
    assert_eq!(led.balance_of(b), before + 100);
    assert!(!reg.get_escrow(0).unwrap().is_active);
    let again = reg.release_funds(a, 0, &mut led);
    assert_eq!(again, Err(Error::NotAuthorized));
}

#[test]
fn ledger_deposit_accumulates_per_account() {
    let mut led = Ledger::new();
    let x = acct(1);
    let y = acct(2);
    assert_eq!(led.balance_of(x), 0);
    assert!(led.deposit(x, 30));
    assert!(led.deposit(y, 5));
    assert!(led.deposit(x, 12));
    assert_eq!(led.balance_of(x), 42);
    assert_eq!(led.balance_of(y), 5);
    assert_eq!(led.custodied, 0);
}

#[test]
fn ledger_deposit_refuses_overflow() {
    let mut led = Ledger::new();
    let x = acct(1);
    assert!(led.deposit(x, u128::MAX - 1));
    assert!(!led.deposit(x, 2));
    assert_eq!(led.balance_of(x), u128::MAX - 1);
    assert!(led.deposit(x, 1));
    assert_eq!(led.balance_of(x), u128::MAX);
}

#[test]
fn ledger_transfer_debits_custody_and_credits_account() {
    let mut led = Ledger::new();
    led.custodied = 100;
    let x = acct(1);
    assert!(led.transfer(x, 60));
    assert_eq!(led.custodied, 40);
    assert_eq!(led.balance_of(x), 60);
    assert!(!led.transfer(x, 41));
    assert_eq!(led.custodied, 40);
    assert_eq!(led.balance_of(x), 60);
}

#[test]
fn release_request_and_apply_release_split_the_decision() {
    let beneficiary = acct(3);
    let arbiter = acct(4);
    let mut reg = TrustbridgeContract::new(acct(1));
    let mut led = Ledger::new();
    reg.create_escrow(acct(2), beneficiary, arbiter, 33, &mut led)
        .unwrap();
    assert_eq!(
        reg.release_request(acct(2), 0),
        Err(Error::NotAuthorized)
    );
    assert_eq!(reg.release_request(arbiter, 1), Err(Error::EscrowNotFound));
    let (to, amount) = reg.release_request(arbiter, 0).unwrap();
    assert_eq!(to, beneficiary);
    assert_eq!(amount, 33);
    assert!(led.transfer(to, amount));
    let event = reg.apply_release(0);
    assert_eq!(
        event,
        FundsReleased {
            escrow_id: 0,
            amount: 33
        }
    );
    assert!(!reg.get_escrow(0).unwrap().is_active);
}
