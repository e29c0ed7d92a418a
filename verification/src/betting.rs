//! The bet-placement orchestrator.
//!
//! `place_bet` runs the whole placement pipeline as one atomic unit of
//! work against a `Store`: event validation, stake validation, balance
//! decryption and check, responsible-gambling limits, odds staleness,
//! exact payout computation, then the debit, the ledger row and the audit
//! row. Any failure leaves the store exactly as it was; success applies
//! all three writes. The fraud scan is a separate read-only pass the
//! caller schedules after commit.

use vstd::prelude::*;

use std::sync::Arc;

use crate::amount::{Amount, Odds, Payout};
use crate::crypto::{encodes_amount, CryptoService};
use crate::errors::AppError;
use crate::store::{
    find_bet, find_event, find_limits, find_wallet, lemma_find_bet_at, lemma_find_bet_none,
    lemma_find_event_at, lemma_find_event_none, lemma_find_limits_at, lemma_find_limits_none,
    lemma_period_total_bound, lemma_wallet_index_at, lemma_wallet_index_none, period_total, wallet_index, window_count, window_sum, Bet, BetStatus, EventRecord, EventStatus,
    GamblingLimits, Id, Store, TransactionRecord, WalletRecord,
};
use crate::text::{ascii_upper, str_eq_ignore_ascii_case, str_to_ascii_uppercase};

verus! {

/// The stake floor: one whole unit.
pub const MINIMUM_STAKE_CENTS: u64 = 100;

/// How far quoted odds may drift from the current odds: five hundredths.
pub const ODDS_TOLERANCE_HUNDREDTHS: u64 = 5;

/// What a caller supplies to place a bet; never persisted as-is.
pub struct PlaceBetRequest {
    pub event_id: Id,
    pub bet_type: String,
    pub selection: String,
    pub odds: Odds,
    pub amount: Amount,
}

/// Relies on `uuid::Uuid::new_v4` for a fresh random 128-bit identifier.
#[verifier::external_body]
fn fresh_id() -> (r: Id) {
    uuid::Uuid::new_v4().as_u128()
}

/// An event accepts bets while it is scheduled and has not started.
pub open spec fn event_open(ev: EventRecord, now: i64) -> bool {
    ev.status is Scheduled && ev.event_date > now
}

/// The odds the event currently offers for a market/selection pair,
/// compared ignoring ASCII case.
pub open spec fn current_odds_of(ev: EventRecord, bet_type: Seq<char>, selection: Seq<char>) -> Option<Odds> {
    let bt = ascii_upper(bet_type);
    let sel = ascii_upper(selection);
    if bt == ascii_upper("moneyline"@) {
        if sel == ascii_upper("home"@) {
            ev.moneyline_home
        } else if sel == ascii_upper("away"@) {
            ev.moneyline_away
        } else {
            None
        }
    } else if bt == ascii_upper("spread"@) {
        if sel == ascii_upper("home"@) {
            ev.spread_home_odds
        } else if sel == ascii_upper("away"@) {
            ev.spread_away_odds
        } else {
            None
        }
    } else if bt == ascii_upper("total"@) {
        if sel == ascii_upper("over"@) {
            ev.over_odds
        } else if sel == ascii_upper("under"@) {
            ev.under_odds
        } else {
            None
        }
    } else {
        None
    }
}

/// Quoted odds are accepted while they differ from the current odds by at
/// most the tolerance, in absolute value.
pub open spec fn odds_within_tolerance(quoted: Odds, current: Odds) -> bool {
    (if quoted.hundredths >= current.hundredths {
        quoted.hundredths - current.hundredths
    } else {
        current.hundredths - quoted.hundredths
    }) <= ODDS_TOLERANCE_HUNDREDTHS
}

/// The first responsible-gambling denial for this stake, or `None` when
/// the stake is allowed: self-exclusion, then the single-stake cap, then
/// the day, week and month windows in that order.
pub open spec fn limits_denial(
    limits: Seq<GamblingLimits>,
    bets: Seq<Bet>,
    user_id: Id,
    stake: Amount,
    now: i64,
) -> Option<AppError> {
    match find_limits(limits, user_id) {
        None => None,
        Some(l) => if l.self_exclusion_until matches Some(t) && t > now {
            Some(AppError::AccountLocked)
        } else if l.max_single_bet matches Some(m) && stake.cents > m.cents {
            Some(AppError::BetLimitExceeded)
        } else if l.daily_bet_limit matches Some(cap) && period_total(bets, user_id, now, 1)
            + stake.cents > cap.cents {
            Some(AppError::BetLimitExceeded)
        } else if l.weekly_bet_limit matches Some(cap) && period_total(bets, user_id, now, 7)
            + stake.cents > cap.cents {
            Some(AppError::BetLimitExceeded)
        } else if l.monthly_bet_limit matches Some(cap) && period_total(bets, user_id, now, 30)
            + stake.cents > cap.cents {
            Some(AppError::BetLimitExceeded)
        } else {
            None
        },
    }
}

/// The failure of pipeline steps that run before the balance is read:
/// event lookup and availability, then the stake floor.
pub open spec fn pre_balance_error(s0: Store, req: PlaceBetRequest, now: i64) -> Option<AppError> {
    match find_event(s0.events@, req.event_id) {
        None => Some(AppError::EventNotFound),
        Some(ev) => if !event_open(ev, now) {
            Some(AppError::EventNotAvailable)
        } else if req.amount.cents < MINIMUM_STAKE_CENTS {
            Some(AppError::InvalidBetAmount)
        } else {
            None
        },
    }
}

/// The failure of the pipeline steps that run once the balance is known:
/// funds, limits, then odds staleness. Meaningful when
/// `pre_balance_error` is `None`.
pub open spec fn post_balance_error(
    s0: Store,
    user_id: Id,
    req: PlaceBetRequest,
    now: i64,
    balance: Amount,
) -> Option<AppError> {
    let ev = find_event(s0.events@, req.event_id)->Some_0;
    if balance.cents < req.amount.cents {
        Some(AppError::InsufficientFunds)
    } else {
        match limits_denial(s0.limits@, s0.bets@, user_id, req.amount, now) {
            Some(e) => Some(e),
            None => match current_odds_of(ev, req.bet_type@, req.selection@) {
                None => Some(AppError::InvalidSelection),
                Some(co) => if !odds_within_tolerance(req.odds, co) {
                    Some(AppError::OddsChanged)
                } else {
                    None
                },
            },
        }
    }
}

/// One audit row, linking a debit to its bet: the stake moved is exactly
/// the difference between the balance before and after.
pub open spec fn audit_links(
    t: TransactionRecord,
    user_id: Id,
    wallet_id: Id,
    stake: Amount,
    balance_before: Amount,
    bet_id: Id,
    now: i64,
) -> bool {
    &&& t.user_id == user_id
    &&& t.wallet_id == wallet_id
    &&& t.amount == stake
    &&& t.balance_before == balance_before
    &&& t.balance_after.cents == balance_before.cents - stake.cents
    &&& t.bet_id == bet_id
    &&& t.created_at == now
}

/// The whole effect of one successful placement on the store: one bet row
/// appended, one audit row appended, the subject's wallet re-sealed to the
/// debited balance, and nothing else touched. The ledger row records the
/// odds in effect at placement, and the potential payout is the stake
/// times those current odds, exactly.
pub open spec fn placement_applied(
    s0: Store,
    s1: Store,
    key: Seq<u8>,
    user_id: Id,
    req: PlaceBetRequest,
    now: i64,
    balance: Amount,
    bet: Bet,
) -> bool {
    let wi = wallet_index(s0.wallets@, user_id);
    let w = s0.wallets@[wi];
    let co = current_odds_of(
        find_event(s0.events@, req.event_id)->Some_0,
        req.bet_type@,
        req.selection@,
    )->Some_0;
    &&& bet.user_id == user_id
    &&& bet.event_id == req.event_id
    &&& bet.bet_type@ == ascii_upper(req.bet_type@)
    &&& bet.selection@ == ascii_upper(req.selection@)
    &&& bet.odds == co
    &&& bet.amount == req.amount
    &&& bet.potential_win.myriadths == req.amount.cents * co.hundredths
    &&& bet.status is Pending
    &&& bet.created_at == now
    &&& s1.bets@ == s0.bets@.push(bet)
    &&& s1.events@ == s0.events@
    &&& s1.limits@ == s0.limits@
    &&& s1.transactions@.len() == s0.transactions@.len() + 1
    &&& s1.transactions@.subrange(0, s0.transactions@.len() as int) == s0.transactions@
    &&& audit_links(s1.transactions@.last(), user_id, w.id, req.amount, balance, bet.id, now)
    &&& s1.wallets@.len() == s0.wallets@.len()
    &&& (forall|j: int|
        0 <= j < s0.wallets@.len() && j != wi ==> s1.wallets@[j] == s0.wallets@[j])
    &&& s1.wallets@[wi].id == w.id
    &&& s1.wallets@[wi].user_id == w.user_id
    &&& encodes_amount(
        key,
        s1.wallets@[wi].encrypted_balance@,
        s1.wallets@[wi].encryption_iv@,
        Amount { cents: (balance.cents - req.amount.cents) as u64 },
    )
}

/// The advisory result of the post-commit fraud scan.
#[derive(Clone, Copy, Debug, PartialEq, Eq, Structural)]
pub struct FraudReport {
    pub velocity_alert: bool,
    pub magnitude_alert: bool,
}

/// The betting saga, wired to the balance cipher it debits through.
pub struct SimpleBettingService {
    crypto_service: Arc<CryptoService>,
}

impl SimpleBettingService {
    /// The cipher key this service reads and writes balances under.
    pub closed spec fn key(self) -> Seq<u8> {
        self.crypto_service.key()
    }

    pub closed spec fn wf(self) -> bool {
        self.crypto_service.wf()
    }

    pub fn new(crypto_service: Arc<CryptoService>) -> (r: Self)
        requires
            crypto_service.wf(),
        ensures
            r.wf(),
            r.key() == crypto_service.key(),
    {
        SimpleBettingService { crypto_service }
    }

    /// Fetches an event by id, as the placement transaction reads it.
    pub fn fetch_event(&self, store: &Store, event_id: Id) -> (r: Result<EventRecord, AppError>)
        ensures
            r matches Ok(ev) ==> find_event(store.events@, event_id) == Some(ev),
            r matches Err(e) ==> find_event(store.events@, event_id) is None && e
                is EventNotFound,
    {
        let n = store.events.len();
        let mut i: usize = 0;
        while i < n
            invariant
                n == store.events@.len(),
                i <= n,
                forall|j: int| 0 <= j < i ==> store.events@[j].id != event_id,
            decreases n - i,
        {
            if store.events[i].id == event_id {
                proof {
                    lemma_find_event_at(store.events@, event_id, i as int);
                }
                return Ok(store.events[i].duplicate());
            }
            i += 1;
        }
        proof {
            lemma_find_event_none(store.events@, event_id);
        }
        Err(AppError::EventNotFound)
    }

    /// An event is open for betting while it is scheduled and in the future.
    pub fn validate_event(&self, event: &EventRecord, now: i64) -> (r: Result<(), AppError>)
        ensures
            r is Ok <==> event_open(*event, now),
            r matches Err(e) ==> e is EventNotAvailable,
    {
        match event.status {
            EventStatus::Scheduled => {},
            _ => {
                return Err(AppError::EventNotAvailable);
            },
        }
        if event.event_date <= now {
            return Err(AppError::EventNotAvailable);
        }
        Ok(())
    }

    /// The stake floor: below one whole unit the stake is rejected.
    pub fn validate_bet_amount(&self, amount: &Amount) -> (r: Result<(), AppError>)
        ensures
            r is Ok <==> amount.cents >= MINIMUM_STAKE_CENTS,
            r matches Err(e) ==> e is InvalidBetAmount,
    {
        if amount.cents < MINIMUM_STAKE_CENTS {
            return Err(AppError::InvalidBetAmount);
        }
        Ok(())
    }

    /// Reads the subject's wallet and decrypts its balance. Whatever single
    /// amount the stored pair encodes is the balance returned.
    pub fn get_wallet_balance(&self, store: &Store, user_id: Id) -> (r: Result<
        (Id, Amount),
        AppError,
    >)
        requires
            self.wf(),
        ensures
            ({
                match find_wallet(store.wallets@, user_id) {
                    None => r matches Err(e) && e is Database,
                    Some(w) => {
                        &&& (r matches Ok(p) ==> p.0 == w.id && encodes_amount(
                            self.key(),
                            w.encrypted_balance@,
                            w.encryption_iv@,
                            p.1,
                        ))
                        &&& (r matches Err(e) ==> e is Encryption)
                        &&& (forall|b: Amount|
                            encodes_amount(self.key(), w.encrypted_balance@, w.encryption_iv@, b)
                                ==> r == Ok::<(Id, Amount), AppError>((w.id, b)))
                    },
                }
            }),
    {
        let n = store.wallets.len();
        let mut i: usize = 0;
        while i < n
            invariant
                self.wf(),
                n == store.wallets@.len(),
                i <= n,
                forall|j: int| 0 <= j < i ==> store.wallets@[j].user_id != user_id,
            decreases n - i,
        {
            if store.wallets[i].user_id == user_id {
                proof {
                    lemma_wallet_index_at(store.wallets@, user_id, i as int);
                }
                let w = &store.wallets[i];
                let balance = match self.crypto_service.decrypt_balance(
                    w.encrypted_balance.as_str(),
                    w.encryption_iv.as_str(),
                ) {
                    Ok(b) => b,
                    Err(e) => {
                        return Err(e);
                    },
                };
                return Ok((w.id, balance));
            }
            i += 1;
        }
        proof {
            lemma_wallet_index_none(store.wallets@, user_id);
        }
        Err(AppError::Database(String::from_str("wallet not found")))
    }

    /// Sums the subject's non-cancelled stakes over a trailing window of
    /// whole days, against the same snapshot the debit will use.
    pub fn get_period_total(&self, store: &Store, user_id: Id, days: u64, now: i64) -> (r: u128)
        ensures
            r == period_total(store.bets@, user_id, now, days),
    {
        let n = store.bets.len();
        let mut total: u128 = 0;
        let mut i: usize = 0;
        while i < n
            invariant
                n == store.bets@.len(),
                i <= n,
                total == period_total(store.bets@.subrange(0, i as int), user_id, now, days),
                total <= (i as int) * 0xffff_ffff_ffff_ffff,
            decreases n - i,
        {
            let b = &store.bets[i];
            let in_range = (b.created_at as i128) > (now as i128) - (days as i128) * 86400;
            let counts = b.user_id == user_id && !matches!(b.status, BetStatus::Cancelled)
                && in_range;
            proof {
                let pre = store.bets@.subrange(0, i as int);
                let cur = store.bets@.subrange(0, i + 1 as int);
                assert(cur.drop_last() =~= pre);
                assert(cur.last() == store.bets@[i as int]);
                assert((i as int) * 0xffff_ffff_ffff_ffff + 0xffff_ffff_ffff_ffff == (i + 1 as int)
                    * 0xffff_ffff_ffff_ffff) by (nonlinear_arith);
                assert((i + 1 as int) * 0xffff_ffff_ffff_ffff <= 0xffff_ffff_ffff_ffff
                    * 0xffff_ffff_ffff_ffff) by (nonlinear_arith)
                    requires i + 1 <= 0xffff_ffff_ffff_ffffu64;
            }
            if counts {
                total = total + (b.amount.cents as u128);
            }
            i += 1;
        }
        proof {
            assert(store.bets@.subrange(0, n as int) =~= store.bets@);
        }
        total
    }

    /// Whether the window total plus this stake would break the cap.
    fn window_cap_exceeded(
        &self,
        store: &Store,
        user_id: Id,
        days: u64,
        now: i64,
        stake: &Amount,
        cap: &Amount,
    ) -> (r: bool)
        ensures
            r == (period_total(store.bets@, user_id, now, days) + stake.cents > cap.cents),
    {
        let n = store.bets.len();
        let total = self.get_period_total(store, user_id, days, now);
        proof {
            lemma_period_total_bound(store.bets@, user_id, now, days);
            assert(store.bets@.len() * 0xffff_ffff_ffff_ffff <= 0xffff_ffff_ffff_ffff
                * 0xffff_ffff_ffff_ffff) by (nonlinear_arith)
                requires store.bets@.len() == n <= 0xffff_ffff_ffff_ffffu64;
        }
        total + (stake.cents as u128) > (cap.cents as u128)
    }

    /// Evaluates the subject's responsible-gambling limits for this stake,
    /// first failure first: self-exclusion, single-stake cap, then the
    /// day, week and month windows. No limits row means no restriction.
    pub fn check_gambling_limits(
        &self,
        store: &Store,
        user_id: Id,
        bet_amount: &Amount,
        now: i64,
    ) -> (r: Result<(), AppError>)
        ensures
            r is Ok <==> limits_denial(store.limits@, store.bets@, user_id, *bet_amount, now)
                is None,
            r matches Err(e) ==> Some(e) == limits_denial(
                store.limits@,
                store.bets@,
                user_id,
                *bet_amount,
                now,
            ),
    {
        let n = store.limits.len();
        let mut i: usize = 0;
        while i < n
            invariant
                n == store.limits@.len(),
                i <= n,
                forall|j: int| 0 <= j < i ==> store.limits@[j].user_id != user_id,
            decreases n - i,
        {
            if store.limits[i].user_id == user_id {
                proof {
                    lemma_find_limits_at(store.limits@, user_id, i as int);
                }
                let l = &store.limits[i];
                match l.self_exclusion_until {
                    Some(t) => {
                        if t > now {
                            return Err(AppError::AccountLocked);
                        }
                    },
                    None => {},
                }
                match l.max_single_bet {
                    Some(m) => {
                        if bet_amount.cents > m.cents {
                            return Err(AppError::BetLimitExceeded);
                        }
                    },
                    None => {},
                }
                match l.daily_bet_limit {
                    Some(cap) => {
                        if self.window_cap_exceeded(store, user_id, 1, now, bet_amount, &cap) {
                            return Err(AppError::BetLimitExceeded);
                        }
                    },
                    None => {},
                }
                match l.weekly_bet_limit {
                    Some(cap) => {
                        if self.window_cap_exceeded(store, user_id, 7, now, bet_amount, &cap) {
                            return Err(AppError::BetLimitExceeded);
                        }
                    },
                    None => {},
                }
                match l.monthly_bet_limit {
                    Some(cap) => {
                        if self.window_cap_exceeded(store, user_id, 30, now, bet_amount, &cap) {
                            return Err(AppError::BetLimitExceeded);
                        }
                    },
                    None => {},
                }
                return Ok(());
            }
            i += 1;
        }
        proof {
            lemma_find_limits_none(store.limits@, user_id);
        }
        Ok(())
    }

    /// Resolves the odds the event currently offers for the requested
    /// market and selection, matching both ignoring ASCII case.
    pub fn get_current_odds(
        &self,
        event: &EventRecord,
        bet_type: &str,
        selection: &str,
    ) -> (r: Result<Odds, AppError>)
        ensures
            r matches Ok(o) ==> current_odds_of(*event, bet_type@, selection@) == Some(o),
            r matches Err(e) ==> current_odds_of(*event, bet_type@, selection@) is None && e
                is InvalidSelection,
    {
        if str_eq_ignore_ascii_case(bet_type, "moneyline") {
            if str_eq_ignore_ascii_case(selection, "home") {
                match event.moneyline_home {
                    Some(o) => Ok(o),
                    None => Err(AppError::InvalidSelection),
                }
            } else if str_eq_ignore_ascii_case(selection, "away") {
                match event.moneyline_away {
                    Some(o) => Ok(o),
                    None => Err(AppError::InvalidSelection),
                }
            } else {
                Err(AppError::InvalidSelection)
            }
        } else if str_eq_ignore_ascii_case(bet_type, "spread") {
            if str_eq_ignore_ascii_case(selection, "home") {
                match event.spread_home_odds {
                    Some(o) => Ok(o),
                    None => Err(AppError::InvalidSelection),
                }
            } else if str_eq_ignore_ascii_case(selection, "away") {
                match event.spread_away_odds {
                    Some(o) => Ok(o),
                    None => Err(AppError::InvalidSelection),
                }
            } else {
                Err(AppError::InvalidSelection)
            }
        } else if str_eq_ignore_ascii_case(bet_type, "total") {
            if str_eq_ignore_ascii_case(selection, "over") {
                match event.over_odds {
                    Some(o) => Ok(o),
                    None => Err(AppError::InvalidSelection),
                }
            } else if str_eq_ignore_ascii_case(selection, "under") {
                match event.under_odds {
                    Some(o) => Ok(o),
                    None => Err(AppError::InvalidSelection),
                }
            } else {
                Err(AppError::InvalidSelection)
            }
        } else {
            Err(AppError::InvalidSelection)
        }
    }

    /// Rejects a quote that is not offered or has drifted beyond the
    /// tolerance from the currently offered odds.
    pub fn verify_odds(&self, event: &EventRecord, bet_request: &PlaceBetRequest) -> (r: Result<
        (),
        AppError,
    >)
        ensures
            ({
                match current_odds_of(*event, bet_request.bet_type@, bet_request.selection@) {
                    None => r == Err::<(), AppError>(AppError::InvalidSelection),
                    Some(co) => if !odds_within_tolerance(bet_request.odds, co) {
                        r == Err::<(), AppError>(AppError::OddsChanged)
                    } else {
                        r is Ok
                    },
                }
            }),
    {
        let current = match self.get_current_odds(
            event,
            bet_request.bet_type.as_str(),
            bet_request.selection.as_str(),
        ) {
            Ok(o) => o,
            Err(_) => {
                return Err(AppError::InvalidSelection);
            },
        };
        let q = bet_request.odds.hundredths;
        let c = current.hundredths;
        let diff = if q >= c {
            q - c
        } else {
            c - q
        };
        if diff > ODDS_TOLERANCE_HUNDREDTHS {
            return Err(AppError::OddsChanged);
        }
        Ok(())
    }

    /// The exact-decimal payout: stake times odds, with no rounding.
    pub fn calculate_potential_win(&self, amount: &Amount, odds: &Odds) -> (r: Payout)
        ensures
            r.myriadths == amount.cents * odds.hundredths,
    {
        proof {
            assert((amount.cents as int) * (odds.hundredths as int) < 0x100000000000000000000000000000000)
                by (nonlinear_arith)
                requires
                    amount.cents <= 0xffff_ffff_ffff_ffffu64,
                    odds.hundredths <= 0xffff_ffff_ffff_ffffu64;
        }
        Payout { myriadths: (amount.cents as u128) * (odds.hundredths as u128) }
    }

    /// Creates the ledger row for a new pending bet, with a fresh random
    /// id, the market and selection upper-cased as the schema stores them,
    /// and the odds in effect at placement. Returns the row exactly as
    /// appended.
    fn create_bet_record(
        &self,
        store: &mut Store,
        user_id: Id,
        bet_request: &PlaceBetRequest,
        odds_at_placement: Odds,
        potential_win: &Payout,
        now: i64,
    ) -> (r: Bet)
        ensures
            final(store).bets@ == old(store).bets@.push(r),
            final(store).events@ == old(store).events@,
            final(store).wallets@ == old(store).wallets@,
            final(store).transactions@ == old(store).transactions@,
            final(store).limits@ == old(store).limits@,
            r.user_id == user_id,
            r.event_id == bet_request.event_id,
            r.bet_type@ == ascii_upper(bet_request.bet_type@),
            r.selection@ == ascii_upper(bet_request.selection@),
            r.odds == odds_at_placement,
            r.amount == bet_request.amount,
            r.potential_win == *potential_win,
            r.status is Pending,
            r.created_at == now,
    {
        let bet = Bet {
            id: fresh_id(),
            user_id,
            event_id: bet_request.event_id,
            bet_type: str_to_ascii_uppercase(bet_request.bet_type.as_str()),
            selection: str_to_ascii_uppercase(bet_request.selection.as_str()),
            odds: odds_at_placement,
            amount: bet_request.amount,
            potential_win: *potential_win,
            status: BetStatus::Pending,
            created_at: now,
        };
        let copy = bet.duplicate();
        store.bets.push(bet);
        copy
    }

    /// Re-seals the subject's wallet to the new balance under a fresh
    /// nonce. A missing wallet row leaves the store untouched, as the
    /// corresponding row update would.
    pub fn update_wallet_balance(&self, store: &mut Store, user_id: Id, new_balance: &Amount) -> (r:
        Result<(), AppError>)
        requires
            self.wf(),
        ensures
            r is Ok,
            final(store).events@ == old(store).events@,
            final(store).bets@ == old(store).bets@,
            final(store).transactions@ == old(store).transactions@,
            final(store).limits@ == old(store).limits@,
            ({
                let wi = wallet_index(old(store).wallets@, user_id);
                if wi == -1 {
                    final(store).wallets@ == old(store).wallets@
                } else {
                    &&& final(store).wallets@.len() == old(store).wallets@.len()
                    &&& (forall|j: int|
                        0 <= j < old(store).wallets@.len() && j != wi ==> final(store).wallets@[j]
                            == old(store).wallets@[j])
                    &&& final(store).wallets@[wi].id == old(store).wallets@[wi].id
                    &&& final(store).wallets@[wi].user_id == old(store).wallets@[wi].user_id
                    &&& encodes_amount(
                        self.key(),
                        final(store).wallets@[wi].encrypted_balance@,
                        final(store).wallets@[wi].encryption_iv@,
                        *new_balance,
                    )
                }
            }),
    {
        let (encrypted, iv) = match self.crypto_service.encrypt_balance(new_balance) {
            Ok(p) => p,
            Err(e) => {
                return Err(e);
            },
        };
        let n = store.wallets.len();
        let mut found: Option<usize> = None;
        let mut i: usize = 0;
        while i < n
            invariant
                n == store.wallets@.len(),
                i <= n,
                found matches Some(k) ==> k < i && store.wallets@[k as int].user_id == user_id
                    && forall|j: int| 0 <= j < k ==> store.wallets@[j].user_id != user_id,
                found is None ==> forall|j: int| 0 <= j < i ==> store.wallets@[j].user_id
                    != user_id,
            decreases n - i,
        {
            if found.is_none() && store.wallets[i].user_id == user_id {
                found = Some(i);
            }
            i += 1;
        }
        match found {
            None => {
                proof {
                    lemma_wallet_index_none(store.wallets@, user_id);
                }
                Ok(())
            },
            Some(k) => {
                proof {
                    lemma_wallet_index_at(store.wallets@, user_id, k as int);
                }
                let wid = store.wallets[k].id;
                let wuid = store.wallets[k].user_id;
                store.wallets[k] = WalletRecord {
                    id: wid,
                    user_id: wuid,
                    encrypted_balance: encrypted,
                    encryption_iv: iv,
                };
                Ok(())
            },
        }
    }

    /// Appends the audit row that makes the debit reconstructable:
    /// balance before, balance after, the stake, and the bet it funded.
    fn create_transaction_record(
        &self,
        store: &mut Store,
        user_id: Id,
        wallet_id: Id,
        amount: &Amount,
        balance_before: &Amount,
        balance_after: &Amount,
        bet_id: Id,
        now: i64,
    ) -> (r: Result<(), AppError>)
        ensures
            r is Ok,
            final(store).events@ == old(store).events@,
            final(store).bets@ == old(store).bets@,
            final(store).wallets@ == old(store).wallets@,
            final(store).limits@ == old(store).limits@,
            final(store).transactions@.len() == old(store).transactions@.len() + 1,
            final(store).transactions@.subrange(0, old(store).transactions@.len() as int) == old(
                store,
            ).transactions@,
            ({
                let t = final(store).transactions@.last();
                &&& t.user_id == user_id
                &&& t.wallet_id == wallet_id
                &&& t.amount == *amount
                &&& t.balance_before == *balance_before
                &&& t.balance_after == *balance_after
                &&& t.bet_id == bet_id
                &&& t.created_at == now
            }),
    {
        let tx = TransactionRecord {
            id: fresh_id(),
            user_id,
            wallet_id,
            amount: *amount,
            balance_before: *balance_before,
            balance_after: *balance_after,
            bet_id,
            created_at: now,
        };
        store.transactions.push(tx);
        proof {
            assert(store.transactions@.subrange(0, old(store).transactions@.len() as int) =~= old(
                store,
            ).transactions@);
        }
        Ok(())
    }

    /// Places a bet as one atomic unit of work against the store.
    ///
    /// The pipeline runs in order - event lookup and availability, stake
    /// floor, balance decryption and sufficiency, responsible-gambling
    /// limits, odds staleness - and the first failure aborts the whole
    /// operation with the store exactly as it was. On success one bet row
    /// is appended recording the currently offered odds and the exact
    /// payout they yield, one audit row is appended, and the wallet is
    /// re-sealed to the debited balance, all in one step; the caller
    /// commits and then schedules the fraud scan out of band.
    pub fn place_bet(
        &self,
        store: &mut Store,
        user_id: Id,
        bet_request: PlaceBetRequest,
        now: i64,
    ) -> (r: Result<Bet, AppError>)
        requires
            self.wf(),
        ensures
            r is Err ==> *final(store) == *old(store),
            ({
                let s0 = *old(store);
                let s1 = *final(store);
                match pre_balance_error(s0, bet_request, now) {
                    Some(e0) => r == Err::<Bet, AppError>(e0),
                    None => match find_wallet(s0.wallets@, user_id) {
                        None => r matches Err(e) && e is Database,
                        Some(w) => {
                            &&& ((forall|b: Amount|
                                !encodes_amount(
                                    self.key(),
                                    w.encrypted_balance@,
                                    w.encryption_iv@,
                                    b,
                                )) ==> (r matches Err(e) && e is Encryption))
                            &&& (forall|b: Amount|
                                encodes_amount(self.key(), w.encrypted_balance@, w.encryption_iv@, b)
                                    ==> match post_balance_error(s0, user_id, bet_request, now, b) {
                                    Some(e1) => r == Err::<Bet, AppError>(e1),
                                    None => r matches Ok(bet) && placement_applied(
                                        s0,
                                        s1,
                                        self.key(),
                                        user_id,
                                        bet_request,
                                        now,
                                        b,
                                        bet,
                                    ),
                                })
                        },
                    },
                }
            }),
    {
        let event = match self.fetch_event(store, bet_request.event_id) {
            Ok(ev) => ev,
            Err(e) => {
                return Err(e);
            },
        };
        if let Err(e) = self.validate_event(&event, now) {
            return Err(e);
        }
        if let Err(e) = self.validate_bet_amount(&bet_request.amount) {
            return Err(e);
        }
        let (wallet_id, current_balance) = match self.get_wallet_balance(store, user_id) {
            Ok(p) => p,
            Err(e) => {
                return Err(e);
            },
        };
        if current_balance.cents < bet_request.amount.cents {
            return Err(AppError::InsufficientFunds);
        }
        if let Err(e) = self.check_gambling_limits(store, user_id, &bet_request.amount, now) {
            return Err(e);
        }
        let current_odds = match self.get_current_odds(
            &event,
            bet_request.bet_type.as_str(),
            bet_request.selection.as_str(),
        ) {
            Ok(o) => o,
            Err(e) => {
                return Err(e);
            },
        };
        let quoted = bet_request.odds.hundredths;
        let drift = if quoted >= current_odds.hundredths {
            quoted - current_odds.hundredths
        } else {
            current_odds.hundredths - quoted
        };
        if drift > ODDS_TOLERANCE_HUNDREDTHS {
            return Err(AppError::OddsChanged);
        }
        let potential_win = self.calculate_potential_win(&bet_request.amount, &current_odds);
        let bet = self.create_bet_record(
            store,
            user_id,
            &bet_request,
            current_odds,
            &potential_win,
            now,
        );
        let new_balance = Amount { cents: current_balance.cents - bet_request.amount.cents };
        if let Err(e) = self.update_wallet_balance(store, user_id, &new_balance) {
            return Err(e);
        }
        if let Err(e) = self.create_transaction_record(
            store,
            user_id,
            wallet_id,
            &bet_request.amount,
            &current_balance,
            &new_balance,
            bet.id,
            now,
        ) {
            return Err(e);
        }
        Ok(bet)
    }

    /// The post-commit, advisory fraud scan: a velocity alert when the
    /// subject has more than ten bets in the trailing ten minutes, and a
    /// magnitude alert when this stake exceeds five times the trailing
    /// thirty-day average stake. Read-only and never part of the
    /// placement's outcome.
    pub fn detect_fraud_patterns(
        store: &Store,
        user_id: Id,
        bet_amount: &Amount,
        now: i64,
    ) -> (r: FraudReport)
        ensures
            r.velocity_alert == (window_count(store.bets@, user_id, now, 600) > 10),
            r.magnitude_alert == ({
                let c = window_count(store.bets@, user_id, now, 2592000);
                let s = window_sum(store.bets@, user_id, now, 2592000);
                c > 0 && bet_amount.cents * c > 5 * s
            }),
    {
        let n = store.bets.len();
        let mut recent: u128 = 0;
        let mut month_count: u128 = 0;
        let mut month_sum: u128 = 0;
        let mut i: usize = 0;
        while i < n
            invariant
                n == store.bets@.len(),
                i <= n,
                recent == window_count(store.bets@.subrange(0, i as int), user_id, now, 600),
                month_count == window_count(
                    store.bets@.subrange(0, i as int),
                    user_id,
                    now,
                    2592000,
                ),
                month_sum == window_sum(store.bets@.subrange(0, i as int), user_id, now, 2592000),
                recent <= i,
                month_count <= i,
                month_sum <= (i as int) * 0xffff_ffff_ffff_ffff,
            decreases n - i,
        {
            let b = &store.bets[i];
            proof {
                let pre = store.bets@.subrange(0, i as int);
                let cur = store.bets@.subrange(0, i + 1 as int);
                assert(cur.drop_last() =~= pre);
                assert(cur.last() == store.bets@[i as int]);
                assert((i as int) * 0xffff_ffff_ffff_ffff + 0xffff_ffff_ffff_ffff == (i + 1 as int)
                    * 0xffff_ffff_ffff_ffff) by (nonlinear_arith);
                assert((i + 1 as int) * 0xffff_ffff_ffff_ffff <= 0xffff_ffff_ffff_ffff
                    * 0xffff_ffff_ffff_ffff) by (nonlinear_arith)
                    requires i + 1 <= 0xffff_ffff_ffff_ffffu64;
            }
            if b.user_id == user_id {
                if (b.created_at as i128) > (now as i128) - 600 {
                    recent = recent + 1;
                }
                if (b.created_at as i128) > (now as i128) - 2592000 {
                    month_count = month_count + 1;
                    month_sum = month_sum + (b.amount.cents as u128);
                }
            }
            i += 1;
        }
        proof {
            assert(store.bets@.subrange(0, n as int) =~= store.bets@);
        }
        let velocity_alert = recent > 10;
        let magnitude_alert = if month_count == 0 {
            false
        } else {
            proof {
                assert((bet_amount.cents as int) * (month_count as int)
                    < 0x100000000000000000000000000000000) by (nonlinear_arith)
                    requires
                        bet_amount.cents <= 0xffff_ffff_ffff_ffffu64,
                        month_count <= 0xffff_ffff_ffff_ffffu64;
            }
            let lhs: u128 = (bet_amount.cents as u128) * month_count;
            let q = lhs / 5;
            let rem = lhs % 5;
            proof {
                assert(lhs == 5 * q + rem && rem < 5);
                assert((lhs > 5 * month_sum) == (q > month_sum || (q == month_sum && rem > 0)));
            }
            q > month_sum || (q == month_sum && rem > 0)
        };
        FraudReport { velocity_alert, magnitude_alert }
    }

    /// The subject's bets, most recent insertion first, with an offset and
    /// a count as a history page would request them. Since the ledger is
    /// appended in time order, this pages by creation time descending
    /// (`lemma_user_bets_desc_sorted`). Negative paging yields nothing.
    pub fn get_user_bets(&self, store: &Store, user_id: Id, limit: i64, offset: i64) -> (r: Vec<
        Bet,
    >)
        ensures
            ({
                let ub = user_bets_desc(store.bets@, user_id);
                if limit < 0 || offset < 0 {
                    r@ == Seq::<Bet>::empty()
                } else {
                    let off = if offset as int <= ub.len() {
                        offset as int
                    } else {
                        ub.len() as int
                    };
                    let lim = if limit as int <= ub.len() - off {
                        limit as int
                    } else {
                        ub.len() - off
                    };
                    r@ == ub.subrange(off, off + lim)
                }
            }),
    {
        if limit < 0 || offset < 0 {
            let empty: Vec<Bet> = Vec::new();
            proof {
                assert(empty@ =~= Seq::<Bet>::empty());
            }
            return empty;
        }
        let n = store.bets.len();
        let mut acc: Vec<Bet> = Vec::new();
        let mut i: usize = n;
        proof {
            assert(store.bets@.subrange(0, n as int) =~= store.bets@);
        }
        while i > 0
            invariant
                n == store.bets@.len(),
                i <= n,
                user_bets_desc(store.bets@, user_id) =~= acc@ + user_bets_desc(
                    store.bets@.subrange(0, i as int),
                    user_id,
                ),
            decreases i,
        {
            proof {
                let cur = store.bets@.subrange(0, i as int);
                let pre = store.bets@.subrange(0, i - 1 as int);
                assert(cur.drop_last() =~= pre);
                assert(cur.last() == store.bets@[i - 1 as int]);
            }
            let b = &store.bets[i - 1];
            if b.user_id == user_id {
                acc.push(b.duplicate());
            }
            i = i - 1;
            proof {
                assert(user_bets_desc(store.bets@, user_id) =~= acc@ + user_bets_desc(
                    store.bets@.subrange(0, i as int),
                    user_id,
                ));
            }
        }
        proof {
            assert(store.bets@.subrange(0, 0) =~= Seq::<Bet>::empty());
            assert(acc@ + Seq::<Bet>::empty() =~= acc@);
            assert(acc@ =~= user_bets_desc(store.bets@, user_id));
        }
        let total = acc.len();
        let off: usize = if (offset as u128) <= (total as u128) {
            offset as usize
        } else {
            total
        };
        let lim: usize = if (limit as u128) <= ((total - off) as u128) {
            limit as usize
        } else {
            total - off
        };
        let mut out: Vec<Bet> = Vec::new();
        let mut j: usize = off;
        while j < off + lim
            invariant
                off + lim <= total == acc@.len(),
                off <= j <= off + lim,
                out@ =~= acc@.subrange(off as int, j as int),
            decreases off + lim - j,
        {
            out.push(acc[j].duplicate());
            proof {
                assert(out@ =~= acc@.subrange(off as int, j + 1 as int));
            }
            j += 1;
        }
        out
    }

    /// The first bet with this id owned by the subject.
    pub fn get_bet_by_id(&self, store: &Store, bet_id: Id, user_id: Id) -> (r: Result<
        Bet,
        AppError,
    >)
        ensures
            r matches Ok(b) ==> find_bet(store.bets@, bet_id, user_id) == Some(b),
            r matches Err(e) ==> find_bet(store.bets@, bet_id, user_id) is None && e
                is BetNotFound,
    {
        let n = store.bets.len();
        let mut i: usize = 0;
        while i < n
            invariant
                n == store.bets@.len(),
                i <= n,
                forall|j: int|
                    0 <= j < i ==> !(store.bets@[j].id == bet_id && store.bets@[j].user_id
                        == user_id),
            decreases n - i,
        {
            if store.bets[i].id == bet_id && store.bets[i].user_id == user_id {
                proof {
                    lemma_find_bet_at(store.bets@, bet_id, user_id, i as int);
                }
                return Ok(store.bets[i].duplicate());
            }
            i += 1;
        }
        proof {
            lemma_find_bet_none(store.bets@, bet_id, user_id);
        }
        Err(AppError::BetNotFound)
    }

    /// The future events open to browsing, optionally narrowed to one
    /// sport and one status, in store order: a table kept in start-time
    /// order yields a start-time-ordered listing
    /// (`lemma_events_matching_sorted`).
    pub fn get_events(
        &self,
        store: &Store,
        sport: Option<String>,
        status: Option<EventStatus>,
        now: i64,
    ) -> (r: Vec<EventRecord>)
        ensures
            r@ == events_matching(store.events@, sport, status, now),
    {
        let n = store.events.len();
        let mut out: Vec<EventRecord> = Vec::new();
        let mut i: usize = 0;
        proof {
            assert(store.events@.subrange(0, 0) =~= Seq::<EventRecord>::empty());
        }
        while i < n
            invariant
                n == store.events@.len(),
                i <= n,
                out@ =~= events_matching(store.events@.subrange(0, i as int), sport, status, now),
            decreases n - i,
        {
            proof {
                let pre = store.events@.subrange(0, i as int);
                let cur = store.events@.subrange(0, i + 1 as int);
                assert(cur.drop_last() =~= pre);
                assert(cur.last() == store.events@[i as int]);
            }
            let ev = &store.events[i];
            let mut keep = ev.event_date > now;
            match &sport {
                Some(sp) => {
                    if !crate::text::str_eq(ev.sport.as_str(), sp.as_str()) {
                        keep = false;
                    }
                },
                None => {},
            }
            match &status {
                Some(st) => {
                    if ev.status != *st {
                        keep = false;
                    }
                },
                None => {},
            }
            if keep {
                out.push(ev.duplicate());
            }
            i += 1;
            proof {
                assert(out@ =~= events_matching(
                    store.events@.subrange(0, i as int),
                    sport,
                    status,
                    now,
                ));
            }
        }
        proof {
            assert(store.events@.subrange(0, n as int) =~= store.events@);
        }
        out
    }

    /// The subject's decrypted balance, read under the same cipher
    /// contract the debit step uses.
    pub fn get_balance(&self, store: &Store, user_id: Id) -> (r: Result<Amount, AppError>)
        requires
            self.wf(),
        ensures
            ({
                match find_wallet(store.wallets@, user_id) {
                    None => r matches Err(e) && e is Database,
                    Some(w) => {
                        &&& (r matches Ok(b) ==> encodes_amount(
                            self.key(),
                            w.encrypted_balance@,
                            w.encryption_iv@,
                            b,
                        ))
                        &&& (r matches Err(e) ==> e is Encryption)
                        &&& (forall|b: Amount|
                            encodes_amount(self.key(), w.encrypted_balance@, w.encryption_iv@, b)
                                ==> r == Ok::<Amount, AppError>(b))
                    },
                }
            }),
    {
        match self.get_wallet_balance(store, user_id) {
            Ok(p) => Ok(p.1),
            Err(e) => Err(e),
        }
    }

    /// Credits the subject's wallet, creating it at zero first when it
    /// does not exist yet, and appends the ledger row; one atomic unit of
    /// work, returning the new balance.
    pub fn deposit(&self, store: &mut Store, user_id: Id, amount: &Amount, now: i64) -> (r:
        Result<Amount, AppError>)
        requires
            self.wf(),
        ensures
            r is Err ==> *final(store) == *old(store),
            final(store).events@ == old(store).events@,
            final(store).bets@ == old(store).bets@,
            final(store).limits@ == old(store).limits@,
            ({
                let s0 = *old(store);
                let s1 = *final(store);
                match find_wallet(s0.wallets@, user_id) {
                    None => r matches Ok(nb) && nb == *amount && s1.wallets@.len()
                        == s0.wallets@.len() + 1 && s1.wallets@.subrange(
                        0,
                        s0.wallets@.len() as int,
                    ) == s0.wallets@ && s1.wallets@.last().user_id == user_id && encodes_amount(
                        self.key(),
                        s1.wallets@.last().encrypted_balance@,
                        s1.wallets@.last().encryption_iv@,
                        *amount,
                    ) && ledger_row_appended(
                        s0,
                        s1,
                        user_id,
                        *amount,
                        Amount { cents: 0 },
                        *amount,
                        0,
                        now,
                    ),
                    Some(w) => {
                        &&& ((forall|b: Amount|
                            !encodes_amount(self.key(), w.encrypted_balance@, w.encryption_iv@, b))
                            ==> (r matches Err(e) && e is Encryption))
                        &&& (forall|b: Amount|
                            encodes_amount(self.key(), w.encrypted_balance@, w.encryption_iv@, b)
                                ==> (if b.cents + amount.cents > 0xffff_ffff_ffff_ffff {
                                r matches Err(e) && e is WalletOperation
                            } else {
                                r matches Ok(nb) && nb.cents == b.cents + amount.cents
                                    && wallet_resealed(s0, s1, self.key(), user_id, nb)
                                    && ledger_row_appended(s0, s1, user_id, *amount, b, nb, 0, now)
                            }))
                    },
                }
            }),
    {
        match self.get_wallet_balance(store, user_id) {
            Ok((wallet_id, balance)) => {
                if balance.cents > 0xffff_ffff_ffff_ffffu64 - amount.cents {
                    return Err(AppError::WalletOperation(String::from_str(
                        "balance would overflow",
                    )));
                }
                let nb = Amount { cents: balance.cents + amount.cents };
                if let Err(e) = self.update_wallet_balance(store, user_id, &nb) {
                    return Err(e);
                }
                store.transactions.push(TransactionRecord {
                    id: fresh_id(),
                    user_id,
                    wallet_id,
                    amount: *amount,
                    balance_before: balance,
                    balance_after: nb,
                    bet_id: 0,
                    created_at: now,
                });
                proof {
                    assert(store.transactions@.subrange(
                        0,
                        old(store).transactions@.len() as int,
                    ) =~= old(store).transactions@);
                }
                Ok(nb)
            },
            Err(AppError::Database(_)) => {
                let (encrypted, iv) = match self.crypto_service.encrypt_balance(amount) {
                    Ok(p) => p,
                    Err(e) => {
                        return Err(e);
                    },
                };
                let wid = fresh_id();
                store.wallets.push(WalletRecord {
                    id: wid,
                    user_id,
                    encrypted_balance: encrypted,
                    encryption_iv: iv,
                });
                store.transactions.push(TransactionRecord {
                    id: fresh_id(),
                    user_id,
                    wallet_id: wid,
                    amount: *amount,
                    balance_before: Amount { cents: 0 },
                    balance_after: *amount,
                    bet_id: 0,
                    created_at: now,
                });
                proof {
                    assert(store.wallets@.subrange(0, old(store).wallets@.len() as int) =~= old(
                        store,
                    ).wallets@);
                    assert(store.transactions@.subrange(
                        0,
                        old(store).transactions@.len() as int,
                    ) =~= old(store).transactions@);
                }
                Ok(*amount)
            },
            Err(e) => Err(e),
        }
    }

    /// Debits the subject's wallet outside the betting pipeline and
    /// appends the ledger row; denied with `InsufficientFunds` when the
    /// stake exceeds the balance, with no effect on the store.
    pub fn withdraw(&self, store: &mut Store, user_id: Id, amount: &Amount, now: i64) -> (r:
        Result<Amount, AppError>)
        requires
            self.wf(),
        ensures
            r is Err ==> *final(store) == *old(store),
            final(store).events@ == old(store).events@,
            final(store).bets@ == old(store).bets@,
            final(store).limits@ == old(store).limits@,
            ({
                let s0 = *old(store);
                let s1 = *final(store);
                match find_wallet(s0.wallets@, user_id) {
                    None => if amount.cents > 0 {
                        r == Err::<Amount, AppError>(AppError::InsufficientFunds)
                    } else {
                        r matches Ok(nb) && nb.cents == 0 && s1.wallets@ == s0.wallets@
                            && s1.transactions@ == s0.transactions@
                    },
                    Some(w) => {
                        &&& ((forall|b: Amount|
                            !encodes_amount(self.key(), w.encrypted_balance@, w.encryption_iv@, b))
                            ==> (r matches Err(e) && e is Encryption))
                        &&& (forall|b: Amount|
                            encodes_amount(self.key(), w.encrypted_balance@, w.encryption_iv@, b)
                                ==> (if b.cents < amount.cents {
                                r == Err::<Amount, AppError>(AppError::InsufficientFunds)
                            } else {
                                r matches Ok(nb) && nb.cents == b.cents - amount.cents
                                    && wallet_resealed(s0, s1, self.key(), user_id, nb)
                                    && ledger_row_appended(s0, s1, user_id, *amount, b, nb, 0, now)
                            }))
                    },
                }
            }),
    {
        match self.get_wallet_balance(store, user_id) {
            Ok((wallet_id, balance)) => {
                if balance.cents < amount.cents {
                    return Err(AppError::InsufficientFunds);
                }
                let nb = Amount { cents: balance.cents - amount.cents };
                if let Err(e) = self.update_wallet_balance(store, user_id, &nb) {
                    return Err(e);
                }
                store.transactions.push(TransactionRecord {
                    id: fresh_id(),
                    user_id,
                    wallet_id,
                    amount: *amount,
                    balance_before: balance,
                    balance_after: nb,
                    bet_id: 0,
                    created_at: now,
                });
                proof {
                    assert(store.transactions@.subrange(
                        0,
                        old(store).transactions@.len() as int,
                    ) =~= old(store).transactions@);
                }
                Ok(nb)
            },
            Err(AppError::Database(_)) => {
                // A subject without a wallet holds nothing to withdraw; a
                // zero withdrawal is trivially met.
                if amount.cents > 0 {
                    Err(AppError::InsufficientFunds)
                } else {
                    Ok(Amount { cents: 0 })
                }
            },
            Err(e) => Err(e),
        }
    }

    /// An event by id, as the browsing surface reads it.
    pub fn get_event(&self, store: &Store, event_id: Id) -> (r: Result<EventRecord, AppError>)
        ensures
            r matches Ok(ev) ==> find_event(store.events@, event_id) == Some(ev),
            r matches Err(e) ==> find_event(store.events@, event_id) is None && e
                is EventNotFound,
    {
        self.fetch_event(store, event_id)
    }
}

/// The wallet of one subject re-sealed to a new balance, everything else
/// about the wallet table unchanged.
pub open spec fn wallet_resealed(s0: Store, s1: Store, key: Seq<u8>, user_id: Id, nb: Amount) -> bool {
    let wi = wallet_index(s0.wallets@, user_id);
    &&& s1.wallets@.len() == s0.wallets@.len()
    &&& (forall|j: int|
        0 <= j < s0.wallets@.len() && j != wi ==> s1.wallets@[j] == s0.wallets@[j])
    &&& s1.wallets@[wi].id == s0.wallets@[wi].id
    &&& s1.wallets@[wi].user_id == s0.wallets@[wi].user_id
    &&& encodes_amount(
        key,
        s1.wallets@[wi].encrypted_balance@,
        s1.wallets@[wi].encryption_iv@,
        nb,
    )
}

/// One ledger row appended, recording a balance move of `amount` from
/// `before` to `after` (a deposit or withdrawal row carries no bet, so
/// `bet_id` is zero there).
pub open spec fn ledger_row_appended(
    s0: Store,
    s1: Store,
    user_id: Id,
    amount: Amount,
    before: Amount,
    after: Amount,
    bet_id: Id,
    now: i64,
) -> bool {
    &&& s1.transactions@.len() == s0.transactions@.len() + 1
    &&& s1.transactions@.subrange(0, s0.transactions@.len() as int) == s0.transactions@
    &&& s1.transactions@.last().user_id == user_id
    &&& s1.transactions@.last().amount == amount
    &&& s1.transactions@.last().balance_before == before
    &&& s1.transactions@.last().balance_after == after
    &&& s1.transactions@.last().bet_id == bet_id
    &&& s1.transactions@.last().created_at == now
}

/// The subject's bets, most recent insertion first.
pub open spec fn user_bets_desc(bets: Seq<Bet>, user_id: Id) -> Seq<Bet>
    decreases bets.len(),
{
    if bets.len() == 0 {
        Seq::empty()
    } else {
        (if bets.last().user_id == user_id {
            seq![bets.last()]
        } else {
            Seq::empty()
        }) + user_bets_desc(bets.drop_last(), user_id)
    }
}

/// Every entry of the subject's history page carries a creation time no
/// later than `bound` when every ledger row does.
proof fn lemma_user_bets_desc_bounded(bets: Seq<Bet>, user_id: Id, bound: i64)
    requires
        forall|k: int| 0 <= k < bets.len() ==> (#[trigger] bets[k]).created_at <= bound,
    ensures
        forall|i: int|
            0 <= i < user_bets_desc(bets, user_id).len() ==> (#[trigger] user_bets_desc(
                bets,
                user_id,
            )[i]).created_at <= bound,
    decreases bets.len(),
{
    if bets.len() > 0 {
        let p = bets.drop_last();
        assert(forall|k: int| 0 <= k < p.len() ==> p[k] == bets[k]);
        lemma_user_bets_desc_bounded(p, user_id, bound);
        let ub = user_bets_desc(bets, user_id);
        let ubp = user_bets_desc(p, user_id);
        assert(bets.last() == bets[bets.len() - 1]);
        if bets.last().user_id == user_id {
            assert(ub == seq![bets.last()] + ubp);
            assert forall|i: int| 0 <= i < ub.len() implies (#[trigger] ub[i]).created_at
                <= bound by {
                if i == 0 {
                    assert(ub[0] == bets.last());
                } else {
                    assert(ub[i] == ubp[i - 1]);
                }
            }
        } else {
            assert(ub =~= ubp);
        }
    }
}

/// A ledger appended in time order — as `place_bet` appends with the
/// caller's clock — yields a history page sorted by creation time,
/// newest first; `get_user_bets` pages exactly this sequence.
pub proof fn lemma_user_bets_desc_sorted(bets: Seq<Bet>, user_id: Id)
    requires
        forall|i: int, j: int|
            0 <= i <= j < bets.len() ==> (#[trigger] bets[i]).created_at <= (
            #[trigger] bets[j]).created_at,
    ensures
        forall|i: int, j: int|
            0 <= i <= j < user_bets_desc(bets, user_id).len() ==> (#[trigger] user_bets_desc(
                bets,
                user_id,
            )[i]).created_at >= (#[trigger] user_bets_desc(bets, user_id)[j]).created_at,
    decreases bets.len(),
{
    if bets.len() > 0 {
        let p = bets.drop_last();
        assert(forall|k: int| 0 <= k < p.len() ==> p[k] == bets[k]);
        lemma_user_bets_desc_sorted(p, user_id);
        assert(bets.last() == bets[bets.len() - 1]);
        lemma_user_bets_desc_bounded(p, user_id, bets.last().created_at);
        let ub = user_bets_desc(bets, user_id);
        let ubp = user_bets_desc(p, user_id);
        if bets.last().user_id == user_id {
            assert(ub == seq![bets.last()] + ubp);
            assert forall|i: int, j: int|
                0 <= i <= j < ub.len() implies (#[trigger] ub[i]).created_at >= (
            #[trigger] ub[j]).created_at by {
                if i == 0 {
                    assert(ub[0] == bets.last());
                    if j > 0 {
                        assert(ub[j] == ubp[j - 1]);
                    }
                } else {
                    assert(ub[i] == ubp[i - 1] && ub[j] == ubp[j - 1]);
                }
            }
        } else {
            assert(ub =~= ubp);
        }
    }
}

/// Every event the browse filter lets through starts no earlier than
/// `bound` when every stored event does.
proof fn lemma_events_matching_bounded(
    events: Seq<EventRecord>,
    sport: Option<String>,
    status: Option<EventStatus>,
    now: i64,
    bound: i64,
)
    requires
        forall|k: int| 0 <= k < events.len() ==> (#[trigger] events[k]).event_date >= bound,
    ensures
        forall|i: int|
            0 <= i < events_matching(events, sport, status, now).len() ==> (
            #[trigger] events_matching(events, sport, status, now)[i]).event_date >= bound,
    decreases events.len(),
{
    if events.len() > 0 {
        let p = events.drop_last();
        assert(forall|k: int| 0 <= k < p.len() ==> p[k] == events[k]);
        lemma_events_matching_bounded(p, sport, status, now, bound);
        let em = events_matching(events, sport, status, now);
        let emp = events_matching(p, sport, status, now);
        assert(events.last() == events[events.len() - 1]);
        if event_matches(events.last(), sport, status, now) {
            assert(em == emp + seq![events.last()]);
            assert forall|i: int| 0 <= i < em.len() implies (#[trigger] em[i]).event_date
                >= bound by {
                if i < emp.len() {
                    assert(em[i] == emp[i]);
                } else {
                    assert(em[i] == events.last());
                }
            }
        } else {
            assert(em =~= emp);
        }
    }
}

/// An event table kept in start-time order yields a browse result in
/// start-time order, as the event listing presents it; `get_events`
/// returns exactly this sequence.
pub proof fn lemma_events_matching_sorted(
    events: Seq<EventRecord>,
    sport: Option<String>,
    status: Option<EventStatus>,
    now: i64,
)
    requires
        forall|i: int, j: int|
            0 <= i <= j < events.len() ==> (#[trigger] events[i]).event_date <= (
            #[trigger] events[j]).event_date,
    ensures
        forall|i: int, j: int|
            0 <= i <= j < events_matching(events, sport, status, now).len() ==> (
            #[trigger] events_matching(events, sport, status, now)[i]).event_date <= (
            #[trigger] events_matching(events, sport, status, now)[j]).event_date,
    decreases events.len(),
{
    if events.len() > 0 {
        let p = events.drop_last();
        assert(forall|k: int| 0 <= k < p.len() ==> p[k] == events[k]);
        lemma_events_matching_sorted(p, sport, status, now);
        assert(events.last() == events[events.len() - 1]);
        let em = events_matching(events, sport, status, now);
        let emp = events_matching(p, sport, status, now);
        if event_matches(events.last(), sport, status, now) {
            assert(em == emp + seq![events.last()]);
            assert forall|i: int, j: int|
                0 <= i <= j < em.len() implies (#[trigger] em[i]).event_date <= (
            #[trigger] em[j]).event_date by {
                if j < emp.len() {
                    assert(em[i] == emp[i] && em[j] == emp[j]);
                } else {
                    assert(em[j] == events.last());
                    if i < emp.len() {
                        assert(em[i] == emp[i]);
                        assert(exists|k: int| 0 <= k < p.len() && emp[i] == p[k]) by {
                            lemma_events_matching_member(p, sport, status, now, i);
                        }
                        let k = choose|k: int| 0 <= k < p.len() && emp[i] == p[k];
                        assert(p[k] == events[k]);
                    } else {
                        assert(em[i] == events.last());
                    }
                }
            }
        } else {
            assert(em =~= emp);
        }
    }
}

/// Every entry of the browse result is one of the stored events.
proof fn lemma_events_matching_member(
    events: Seq<EventRecord>,
    sport: Option<String>,
    status: Option<EventStatus>,
    now: i64,
    i: int,
)
    requires
        0 <= i < events_matching(events, sport, status, now).len(),
    ensures
        exists|k: int|
            0 <= k < events.len() && events_matching(events, sport, status, now)[i] == events[k],
    decreases events.len(),
{
    if events.len() > 0 {
        let p = events.drop_last();
        let em = events_matching(events, sport, status, now);
        let emp = events_matching(p, sport, status, now);
        assert(events.last() == events[events.len() - 1]);
        if event_matches(events.last(), sport, status, now) {
            assert(em == emp + seq![events.last()]);
            if i < emp.len() {
                lemma_events_matching_member(p, sport, status, now, i);
                let k = choose|k: int| 0 <= k < p.len() && emp[i] == p[k];
                assert(p[k] == events[k]);
                assert(em[i] == emp[i]);
            } else {
                assert(em[i] == events[events.len() - 1]);
            }
        } else {
            assert(em =~= emp);
            lemma_events_matching_member(p, sport, status, now, i);
            let k = choose|k: int| 0 <= k < p.len() && emp[i] == p[k];
            assert(p[k] == events[k]);
        }
    }
}

/// Whether an event matches the browse filters: strictly in the future,
/// and of the requested sport and status where those are given.
pub open spec fn event_matches(
    ev: EventRecord,
    sport: Option<String>,
    status: Option<EventStatus>,
    now: i64,
) -> bool {
    &&& ev.event_date > now
    &&& (sport matches Some(sp) ==> ev.sport@ == sp@)
    &&& (status matches Some(st) ==> ev.status == st)
}

/// The events that match the browse filters, in store order.
pub open spec fn events_matching(
    events: Seq<EventRecord>,
    sport: Option<String>,
    status: Option<EventStatus>,
    now: i64,
) -> Seq<EventRecord>
    decreases events.len(),
{
    if events.len() == 0 {
        Seq::empty()
    } else {
        events_matching(events.drop_last(), sport, status, now) + (if event_matches(
            events.last(),
            sport,
            status,
            now,
        ) {
            seq![events.last()]
        } else {
            Seq::empty()
        })
    }
}

} // verus!
