use std::sync::Arc;

use betcore::amount::{Amount, Odds, Payout};
use betcore::betting::{PlaceBetRequest, SimpleBettingService};
use betcore::crypto::CryptoService;
use betcore::errors::AppError;
use betcore::store::{Bet, BetStatus, EventRecord, EventStatus, GamblingLimits, Store, WalletRecord};

const NOW: i64 = 1_700_000_000;

fn service() -> SimpleBettingService {
    SimpleBettingService::new(Arc::new(CryptoService::new(&[0u8; 32])))
}

fn scheduled_event(id: u128, home_odds_hundredths: u64) -> EventRecord {
    EventRecord {
        id,
        sport: String::from("NFL"),
        league: String::from("NFL"),
        home_team: String::from("Home"),
        away_team: String::from("Away"),
        event_date: NOW + 3600,
        status: EventStatus::Scheduled,
        moneyline_home: Some(Odds { hundredths: home_odds_hundredths }),
        moneyline_away: Some(Odds { hundredths: 180 }),
        spread_home_odds: None,
        spread_away_odds: None,
        over_odds: None,
        under_odds: None,
    }
}

fn seed_wallet(store: &mut Store, user_id: u128, cents: u64) {
    let crypto = CryptoService::new(&[0u8; 32]);
    let (encrypted_balance, encryption_iv) =
        crypto.encrypt_balance(&Amount { cents }).unwrap();
    store.wallets.push(WalletRecord {
        id: user_id + 1000,
        user_id,
        encrypted_balance,
        encryption_iv,
    });
}

fn request(event_id: u128, odds_hundredths: u64, cents: u64) -> PlaceBetRequest {
    PlaceBetRequest {
        event_id,
        bet_type: String::from("moneyline"),
        selection: String::from("home"),
        odds: Odds { hundredths: odds_hundredths },
        amount: Amount { cents },
    }
}

fn store_snapshot(store: &Store) -> (usize, usize, Vec<(String, String)>) {
    (
        store.bets.len(),
        store.transactions.len(),
        store
            .wallets
            .iter()
            .map(|w| (w.encrypted_balance.clone(), w.encryption_iv.clone()))
            .collect(),
    )
}

#[test]
fn test_calculate_potential_win() {
    let service = SimpleBettingService::new(Arc::new(CryptoService::new(&[0u8; 32])));
    let amount = Amount { cents: 100_00 }; // 100.00
    let odds = Odds { hundredths: 250 }; // 2.5
    let potential_win = service.calculate_potential_win(&amount, &odds);
    assert_eq!(potential_win, Payout { myriadths: 2_500_000 }); // 250.00
}

#[test]
fn test_validate_bet_amount() {
    let service = SimpleBettingService::new(Arc::new(CryptoService::new(&[0u8; 32])));

    // Valid amount
    let valid = Amount { cents: 10_00 }; // 10.00
    assert!(service.validate_bet_amount(&valid).is_ok());

    // Invalid amount (too small)
    let invalid = Amount { cents: 50 }; // 0.50
    assert!(service.validate_bet_amount(&invalid).is_err());
}

#[test]
fn test_successful_placement() {
    let svc = service();
    let mut store = Store::new();
    store.events.push(scheduled_event(1, 205));
    seed_wallet(&mut store, 42, 100_00);

    let bet = svc
        .place_bet(&mut store, 42, request(1, 200, 25_00), NOW)
        .unwrap();

    assert_eq!(bet.user_id, 42);
    assert_eq!(bet.event_id, 1);
    assert_eq!(bet.bet_type, "MONEYLINE");
    assert_eq!(bet.selection, "HOME");
    assert_eq!(bet.amount, Amount { cents: 25_00 });
    // The ledger records the odds in effect at placement, and the payout
    // is computed from them, not from the quote.
    assert_eq!(bet.odds, Odds { hundredths: 205 });
    assert_eq!(bet.potential_win, Payout { myriadths: 2500 * 205 });
    assert_eq!(bet.status, BetStatus::Pending);
    assert_eq!(bet.created_at, NOW);

    assert_eq!(store.bets.len(), 1);
    assert_eq!(store.transactions.len(), 1);
    let tx = &store.transactions[0];
    assert_eq!(tx.balance_before, Amount { cents: 100_00 });
    assert_eq!(tx.balance_after, Amount { cents: 75_00 });
    assert_eq!(tx.amount, Amount { cents: 25_00 });
    assert_eq!(tx.bet_id, bet.id);

    // The wallet now decrypts to the debited balance.
    let crypto = CryptoService::new(&[0u8; 32]);
    let w = &store.wallets[0];
    let balance = crypto
        .decrypt_balance(&w.encrypted_balance, &w.encryption_iv)
        .unwrap();
    assert_eq!(balance, Amount { cents: 75_00 });
}

#[test]
fn test_conservation_across_placements() {
    let svc = service();
    let mut store = Store::new();
    store.events.push(scheduled_event(1, 205));
    seed_wallet(&mut store, 42, 100_00);

    let stakes: [u64; 3] = [10_00, 25_00, 5_00];
    for stake in stakes {
        svc.place_bet(&mut store, 42, request(1, 205, stake), NOW).unwrap();
    }

    let total_stakes: u64 = stakes.iter().sum();
    let total_drop: u64 = store
        .transactions
        .iter()
        .map(|t| t.balance_before.cents - t.balance_after.cents)
        .sum();
    assert_eq!(total_drop, total_stakes);
    // No placement ever increases a balance.
    for t in &store.transactions {
        assert!(t.balance_after.cents <= t.balance_before.cents);
    }

    let crypto = CryptoService::new(&[0u8; 32]);
    let w = &store.wallets[0];
    let balance = crypto
        .decrypt_balance(&w.encrypted_balance, &w.encryption_iv)
        .unwrap();
    assert_eq!(balance, Amount { cents: 100_00 - total_stakes });
}

#[test]
fn test_atomicity_on_each_failure() {
    let svc = service();

    // Step 1a: unknown event.
    let mut store = Store::new();
    seed_wallet(&mut store, 42, 100_00);
    let before = store_snapshot(&store);
    let r = svc.place_bet(&mut store, 42, request(99, 200, 10_00), NOW);
    assert!(matches!(r, Err(AppError::EventNotFound)));
    assert_eq!(store_snapshot(&store), before);

    // Step 1b: event no longer open.
    let mut store = Store::new();
    let mut ev = scheduled_event(1, 205);
    ev.status = EventStatus::Live;
    store.events.push(ev);
    seed_wallet(&mut store, 42, 100_00);
    let before = store_snapshot(&store);
    let r = svc.place_bet(&mut store, 42, request(1, 200, 10_00), NOW);
    assert!(matches!(r, Err(AppError::EventNotAvailable)));
    assert_eq!(store_snapshot(&store), before);

    // Step 1c: event already started.
    let mut store = Store::new();
    let mut ev = scheduled_event(1, 205);
    ev.event_date = NOW - 1;
    store.events.push(ev);
    seed_wallet(&mut store, 42, 100_00);
    let r = svc.place_bet(&mut store, 42, request(1, 200, 10_00), NOW);
    assert!(matches!(r, Err(AppError::EventNotAvailable)));

    // Step 2: stake below the floor.
    let mut store = Store::new();
    store.events.push(scheduled_event(1, 205));
    seed_wallet(&mut store, 42, 100_00);
    let before = store_snapshot(&store);
    let r = svc.place_bet(&mut store, 42, request(1, 200, 99), NOW);
    assert!(matches!(r, Err(AppError::InvalidBetAmount)));
    assert_eq!(store_snapshot(&store), before);

    // Step 3: insufficient funds.
    let mut store = Store::new();
    store.events.push(scheduled_event(1, 205));
    seed_wallet(&mut store, 42, 5_00);
    let before = store_snapshot(&store);
    let r = svc.place_bet(&mut store, 42, request(1, 200, 10_00), NOW);
    assert!(matches!(r, Err(AppError::InsufficientFunds)));
    assert_eq!(store_snapshot(&store), before);

    // Step 4a: self-excluded subject.
    let mut store = Store::new();
    store.events.push(scheduled_event(1, 205));
    seed_wallet(&mut store, 42, 100_00);
    store.limits.push(GamblingLimits {
        user_id: 42,
        daily_bet_limit: None,
        weekly_bet_limit: None,
        monthly_bet_limit: None,
        max_single_bet: None,
        self_exclusion_until: Some(NOW + 86400),
    });
    let before = store_snapshot(&store);
    let r = svc.place_bet(&mut store, 42, request(1, 200, 10_00), NOW);
    assert!(matches!(r, Err(AppError::AccountLocked)));
    assert_eq!(store_snapshot(&store), before);

    // Step 4b: single-stake cap.
    let mut store = Store::new();
    store.events.push(scheduled_event(1, 205));
    seed_wallet(&mut store, 42, 100_00);
    store.limits.push(GamblingLimits {
        user_id: 42,
        daily_bet_limit: None,
        weekly_bet_limit: None,
        monthly_bet_limit: None,
        max_single_bet: Some(Amount { cents: 5_00 }),
        self_exclusion_until: None,
    });
    let r = svc.place_bet(&mut store, 42, request(1, 200, 10_00), NOW);
    assert!(matches!(r, Err(AppError::BetLimitExceeded)));

    // Step 5: unknown selection.
    let mut store = Store::new();
    store.events.push(scheduled_event(1, 205));
    seed_wallet(&mut store, 42, 100_00);
    let mut req = request(1, 200, 10_00);
    req.selection = String::from("sideways");
    let before = store_snapshot(&store);
    let r = svc.place_bet(&mut store, 42, req, NOW);
    assert!(matches!(r, Err(AppError::InvalidSelection)));
    assert_eq!(store_snapshot(&store), before);

    // Step 5: stale odds.
    let mut store = Store::new();
    store.events.push(scheduled_event(1, 300));
    seed_wallet(&mut store, 42, 100_00);
    let before = store_snapshot(&store);
    let r = svc.place_bet(&mut store, 42, request(1, 200, 10_00), NOW);
    assert!(matches!(r, Err(AppError::OddsChanged)));
    assert_eq!(store_snapshot(&store), before);

    // Missing wallet: store-level failure, no side effects.
    let mut store = Store::new();
    store.events.push(scheduled_event(1, 205));
    let r = svc.place_bet(&mut store, 42, request(1, 200, 10_00), NOW);
    assert!(matches!(r, Err(AppError::Database(_))));
    assert!(store.bets.is_empty() && store.transactions.is_empty());
}

#[test]
fn test_staleness_boundary() {
    let svc = service();

    // Quoted 2.00 against current 2.05: exactly at the tolerance, accepted.
    let mut store = Store::new();
    store.events.push(scheduled_event(1, 205));
    seed_wallet(&mut store, 42, 100_00);
    assert!(svc.place_bet(&mut store, 42, request(1, 200, 10_00), NOW).is_ok());

    // Quoted 2.00 against current 2.06: beyond the tolerance, rejected.
    let mut store = Store::new();
    store.events.push(scheduled_event(1, 206));
    seed_wallet(&mut store, 42, 100_00);
    let r = svc.place_bet(&mut store, 42, request(1, 200, 10_00), NOW);
    assert!(matches!(r, Err(AppError::OddsChanged)));
}

#[test]
fn test_limit_boundary() {
    let svc = service();

    let mut store = Store::new();
    store.events.push(scheduled_event(1, 205));
    seed_wallet(&mut store, 42, 1000_00);
    store.limits.push(GamblingLimits {
        user_id: 42,
        daily_bet_limit: Some(Amount { cents: 100_00 }),
        weekly_bet_limit: None,
        monthly_bet_limit: None,
        max_single_bet: None,
        self_exclusion_until: None,
    });
    // Prior spend today: 95.00.
    store.bets.push(Bet {
        id: 7,
        user_id: 42,
        event_id: 1,
        bet_type: String::from("MONEYLINE"),
        selection: String::from("HOME"),
        odds: Odds { hundredths: 200 },
        amount: Amount { cents: 95_00 },
        potential_win: Payout { myriadths: 9500 * 200 },
        status: BetStatus::Pending,
        created_at: NOW - 600,
    });

    // A 5.00 stake brings the day total exactly to the cap: accepted.
    assert!(svc.place_bet(&mut store, 42, request(1, 200, 5_00), NOW).is_ok());

    // Rebuild the same starting state; 5.01 breaks the cap: denied.
    let mut store2 = Store::new();
    store2.events.push(scheduled_event(1, 205));
    seed_wallet(&mut store2, 42, 1000_00);
    store2.limits = std::mem::take(&mut store.limits);
    store2.bets.push(Bet {
        id: 7,
        user_id: 42,
        event_id: 1,
        bet_type: String::from("MONEYLINE"),
        selection: String::from("HOME"),
        odds: Odds { hundredths: 200 },
        amount: Amount { cents: 95_00 },
        potential_win: Payout { myriadths: 9500 * 200 },
        status: BetStatus::Pending,
        created_at: NOW - 600,
    });
    let r = svc.place_bet(&mut store2, 42, request(1, 200, 5_01), NOW);
    assert!(matches!(r, Err(AppError::BetLimitExceeded)));
}

#[test]
fn test_cancelled_bets_do_not_count_toward_limits() {
    let svc = service();
    let mut store = Store::new();
    store.events.push(scheduled_event(1, 205));
    seed_wallet(&mut store, 42, 1000_00);
    store.limits.push(GamblingLimits {
        user_id: 42,
        daily_bet_limit: Some(Amount { cents: 100_00 }),
        weekly_bet_limit: None,
        monthly_bet_limit: None,
        max_single_bet: None,
        self_exclusion_until: None,
    });
    store.bets.push(Bet {
        id: 7,
        user_id: 42,
        event_id: 1,
        bet_type: String::from("MONEYLINE"),
        selection: String::from("HOME"),
        odds: Odds { hundredths: 200 },
        amount: Amount { cents: 99_00 },
        potential_win: Payout { myriadths: 9900 * 200 },
        status: BetStatus::Cancelled,
        created_at: NOW - 600,
    });
    assert!(svc.place_bet(&mut store, 42, request(1, 200, 50_00), NOW).is_ok());
}

#[test]
fn test_concurrent_debit_safety() {
    // Two racing placements, each staking the whole 10.00 balance, run in
    // the serialized order the store's isolation guarantees: exactly one
    // succeeds and one is denied for insufficient funds.
    let svc = service();
    let mut store = Store::new();
    store.events.push(scheduled_event(1, 205));
    seed_wallet(&mut store, 42, 10_00);

    let first = svc.place_bet(&mut store, 42, request(1, 200, 10_00), NOW);
    let second = svc.place_bet(&mut store, 42, request(1, 200, 10_00), NOW);

    assert!(first.is_ok());
    assert!(matches!(second, Err(AppError::InsufficientFunds)));
    assert_eq!(store.bets.len(), 1);
    assert_eq!(store.transactions.len(), 1);
}

#[test]
fn test_fresh_bet_ids() {
    let svc = service();
    let mut store = Store::new();
    store.events.push(scheduled_event(1, 205));
    seed_wallet(&mut store, 42, 100_00);
    let a = svc.place_bet(&mut store, 42, request(1, 200, 10_00), NOW).unwrap();
    let b = svc.place_bet(&mut store, 42, request(1, 200, 10_00), NOW).unwrap();
    assert_ne!(a.id, b.id);
}

#[test]
fn test_case_insensitive_market_matching() {
    let svc = service();
    let mut store = Store::new();
    store.events.push(scheduled_event(1, 205));
    seed_wallet(&mut store, 42, 100_00);
    let mut req = request(1, 200, 10_00);
    req.bet_type = String::from("MoneyLine");
    req.selection = String::from("HOME");
    let bet = svc.place_bet(&mut store, 42, req, NOW).unwrap();
    assert_eq!(bet.bet_type, "MONEYLINE");
    assert_eq!(bet.selection, "HOME");
}

#[test]
fn test_fraud_velocity_alert() {
    let mut store = Store::new();
    for i in 0..11u64 {
        store.bets.push(Bet {
            id: i as u128,
            user_id: 42,
            event_id: 1,
            bet_type: String::from("MONEYLINE"),
            selection: String::from("HOME"),
            odds: Odds { hundredths: 200 },
            amount: Amount { cents: 10_00 },
            potential_win: Payout { myriadths: 1000 * 200 },
            status: BetStatus::Pending,
            created_at: NOW - (i as i64),
        });
    }
    let report =
        SimpleBettingService::detect_fraud_patterns(&store, 42, &Amount { cents: 10_00 }, NOW);
    assert!(report.velocity_alert);
    assert!(!report.magnitude_alert);

    let calm = SimpleBettingService::detect_fraud_patterns(&store, 7, &Amount { cents: 10_00 }, NOW);
    assert!(!calm.velocity_alert);
}

#[test]
fn test_fraud_magnitude_alert() {
    let mut store = Store::new();
    // Average stake over the month: 10.00.
    for i in 0..4u64 {
        store.bets.push(Bet {
            id: i as u128,
            user_id: 42,
            event_id: 1,
            bet_type: String::from("MONEYLINE"),
            selection: String::from("HOME"),
            odds: Odds { hundredths: 200 },
            amount: Amount { cents: 10_00 },
            potential_win: Payout { myriadths: 1000 * 200 },
            status: BetStatus::Pending,
            created_at: NOW - 86400,
        });
    }
    // 50.01 is strictly more than five times the 10.00 average.
    let hot = SimpleBettingService::detect_fraud_patterns(
        &store,
        42,
        &Amount { cents: 50_01 },
        NOW,
    );
    assert!(hot.magnitude_alert);
    // Exactly five times the average does not alert.
    let cool = SimpleBettingService::detect_fraud_patterns(
        &store,
        42,
        &Amount { cents: 50_00 },
        NOW,
    );
    assert!(!cool.magnitude_alert);
}

#[test]
fn test_get_user_bets_and_lookup() {
    let svc = service();
    let mut store = Store::new();
    store.events.push(scheduled_event(1, 205));
    seed_wallet(&mut store, 42, 100_00);
    seed_wallet(&mut store, 7, 100_00);
    let a = svc.place_bet(&mut store, 42, request(1, 200, 10_00), NOW).unwrap();
    let b = svc.place_bet(&mut store, 7, request(1, 200, 11_00), NOW).unwrap();
    let c = svc.place_bet(&mut store, 42, request(1, 200, 12_00), NOW).unwrap();

    let mine = svc.get_user_bets(&store, 42, 10, 0);
    assert_eq!(mine.len(), 2);
    assert_eq!(mine[0].id, c.id); // most recent first
    assert_eq!(mine[1].id, a.id);

    let paged = svc.get_user_bets(&store, 42, 1, 1);
    assert_eq!(paged.len(), 1);
    assert_eq!(paged[0].id, a.id);

    assert_eq!(svc.get_bet_by_id(&store, b.id, 7).unwrap().id, b.id);
    assert!(matches!(
        svc.get_bet_by_id(&store, b.id, 42),
        Err(AppError::BetNotFound)
    ));
}

#[test]
fn test_get_events_filters() {
    let svc = service();
    let mut store = Store::new();
    store.events.push(scheduled_event(1, 205));
    let mut past = scheduled_event(2, 205);
    past.event_date = NOW - 10;
    store.events.push(past);
    let mut soccer = scheduled_event(3, 205);
    soccer.sport = String::from("SOCCER");
    store.events.push(soccer);

    let all = svc.get_events(&store, None, None, NOW);
    assert_eq!(all.len(), 2); // the past event is filtered out

    let nfl = svc.get_events(&store, Some(String::from("NFL")), None, NOW);
    assert_eq!(nfl.len(), 1);
    assert_eq!(nfl[0].id, 1);

    assert_eq!(svc.get_event(&store, 3).unwrap().id, 3);
    assert!(matches!(svc.get_event(&store, 99), Err(AppError::EventNotFound)));
}

#[test]
fn test_verify_odds_tolerance() {
    let svc = service();
    let at_tolerance = scheduled_event(1, 205);
    assert!(svc.verify_odds(&at_tolerance, &request(1, 200, 10_00)).is_ok());
    let beyond = scheduled_event(1, 206);
    assert!(matches!(
        svc.verify_odds(&beyond, &request(1, 200, 10_00)),
        Err(AppError::OddsChanged)
    ));
    let mut req = request(1, 200, 10_00);
    req.bet_type = String::from("parlay");
    assert!(matches!(
        svc.verify_odds(&at_tolerance, &req),
        Err(AppError::InvalidSelection)
    ));
}
