use std::sync::Arc;

use betcore::amount::Amount;
use betcore::betting::SimpleBettingService;
use betcore::crypto::CryptoService;
use betcore::errors::AppError;
use betcore::store::Store;

const NOW: i64 = 1_700_000_000;

fn service() -> SimpleBettingService {
    SimpleBettingService::new(Arc::new(CryptoService::new(&[3u8; 32])))
}

#[test]
fn test_deposit_creates_wallet() {
    let svc = service();
    let mut store = Store::new();
    let nb = svc.deposit(&mut store, 42, &Amount { cents: 50_00 }, NOW).unwrap();
    assert_eq!(nb, Amount { cents: 50_00 });
    assert_eq!(store.wallets.len(), 1);
    assert_eq!(store.wallets[0].user_id, 42);
    assert_eq!(store.transactions.len(), 1);
    assert_eq!(store.transactions[0].balance_before, Amount { cents: 0 });
    assert_eq!(store.transactions[0].balance_after, Amount { cents: 50_00 });
    assert_eq!(svc.get_balance(&store, 42).unwrap(), Amount { cents: 50_00 });
}

#[test]
fn test_deposit_credits_existing_wallet() {
    let svc = service();
    let mut store = Store::new();
    svc.deposit(&mut store, 42, &Amount { cents: 50_00 }, NOW).unwrap();
    let nb = svc.deposit(&mut store, 42, &Amount { cents: 12_34 }, NOW + 1).unwrap();
    assert_eq!(nb, Amount { cents: 62_34 });
    assert_eq!(store.wallets.len(), 1);
    assert_eq!(store.transactions.len(), 2);
    assert_eq!(svc.get_balance(&store, 42).unwrap(), Amount { cents: 62_34 });
}

#[test]
fn test_deposit_overflow_rejected() {
    let svc = service();
    let mut store = Store::new();
    svc.deposit(&mut store, 42, &Amount { cents: u64::MAX - 10 }, NOW).unwrap();
    let r = svc.deposit(&mut store, 42, &Amount { cents: 11 }, NOW);
    assert!(matches!(r, Err(AppError::WalletOperation(_))));
    assert_eq!(svc.get_balance(&store, 42).unwrap(), Amount { cents: u64::MAX - 10 });
    assert_eq!(store.transactions.len(), 1);
}

#[test]
fn test_withdraw_debits_and_denies() {
    let svc = service();
    let mut store = Store::new();
    svc.deposit(&mut store, 42, &Amount { cents: 50_00 }, NOW).unwrap();

    let nb = svc.withdraw(&mut store, 42, &Amount { cents: 20_00 }, NOW + 1).unwrap();
    assert_eq!(nb, Amount { cents: 30_00 });
    assert_eq!(svc.get_balance(&store, 42).unwrap(), Amount { cents: 30_00 });
    assert_eq!(store.transactions.len(), 2);

    let r = svc.withdraw(&mut store, 42, &Amount { cents: 30_01 }, NOW + 2);
    assert!(matches!(r, Err(AppError::InsufficientFunds)));
    assert_eq!(svc.get_balance(&store, 42).unwrap(), Amount { cents: 30_00 });
    assert_eq!(store.transactions.len(), 2);
}

#[test]
fn test_withdraw_without_wallet() {
    let svc = service();
    let mut store = Store::new();
    let r = svc.withdraw(&mut store, 42, &Amount { cents: 1 }, NOW);
    assert!(matches!(r, Err(AppError::InsufficientFunds)));
    assert!(store.wallets.is_empty() && store.transactions.is_empty());
}
