//! An in-memory model of the relational store the wagering core runs
//! against: events, wallets, bets, the append-only audit ledger, and
//! per-subject spend limits.
//!
//! The orchestrator mutates a `Store` only through one call that either
//! applies a whole placement or leaves the store untouched, mirroring a
//! serializable transaction. The surrounding application maps these
//! records to its actual storage.

use vstd::prelude::*;

use crate::amount::{Amount, Odds, Payout};

verus! {

/// Record identifiers (128-bit, as produced by random UUIDs).
pub type Id = u128;

#[derive(Clone, Copy, Debug, PartialEq, Eq, Structural)]
pub enum EventStatus {
    Scheduled,
    Live,
    Finished,
    Cancelled,
}

#[derive(Clone, Copy, Debug, PartialEq, Eq, Structural)]
pub enum BetStatus {
    Pending,
    Won,
    Lost,
    Cancelled,
}

pub struct EventRecord {
    pub id: Id,
    pub sport: String,
    pub league: String,
    pub home_team: String,
    pub away_team: String,
    /// Scheduled start, in seconds.
    pub event_date: i64,
    pub status: EventStatus,
    pub moneyline_home: Option<Odds>,
    pub moneyline_away: Option<Odds>,
    pub spread_home_odds: Option<Odds>,
    pub spread_away_odds: Option<Odds>,
    pub over_odds: Option<Odds>,
    pub under_odds: Option<Odds>,
}

impl EventRecord {
    /// A field-for-field copy.
    pub fn duplicate(&self) -> (r: EventRecord)
        ensures
            r == *self,
    {
        EventRecord {
            id: self.id,
            sport: self.sport.clone(),
            league: self.league.clone(),
            home_team: self.home_team.clone(),
            away_team: self.away_team.clone(),
            event_date: self.event_date,
            status: self.status,
            moneyline_home: self.moneyline_home,
            moneyline_away: self.moneyline_away,
            spread_home_odds: self.spread_home_odds,
            spread_away_odds: self.spread_away_odds,
            over_odds: self.over_odds,
            under_odds: self.under_odds,
        }
    }
}

/// A settled-or-pending wager, exactly as the ledger holds it.
pub struct Bet {
    pub id: Id,
    pub user_id: Id,
    pub event_id: Id,
    pub bet_type: String,
    pub selection: String,
    pub odds: Odds,
    pub amount: Amount,
    pub potential_win: Payout,
    pub status: BetStatus,
    pub created_at: i64,
}

impl Bet {
    /// A field-for-field copy.
    pub fn duplicate(&self) -> (r: Bet)
        ensures
            r == *self,
    {
        Bet {
            id: self.id,
            user_id: self.user_id,
            event_id: self.event_id,
            bet_type: self.bet_type.clone(),
            selection: self.selection.clone(),
            odds: self.odds,
            amount: self.amount,
            potential_win: self.potential_win,
            status: self.status,
            created_at: self.created_at,
        }
    }
}

/// One wallet per subject; the balance is held only in sealed form.
pub struct WalletRecord {
    pub id: Id,
    pub user_id: Id,
    pub encrypted_balance: String,
    pub encryption_iv: String,
}

/// One append-only audit row per balance mutation, making every debit
/// independently reconstructable.
pub struct TransactionRecord {
    pub id: Id,
    pub user_id: Id,
    pub wallet_id: Id,
    pub amount: Amount,
    pub balance_before: Amount,
    pub balance_after: Amount,
    pub bet_id: Id,
    pub created_at: i64,
}

/// Per-subject responsible-gambling limits; absence of a row means no
/// restriction.
pub struct GamblingLimits {
    pub user_id: Id,
    pub daily_bet_limit: Option<Amount>,
    pub weekly_bet_limit: Option<Amount>,
    pub monthly_bet_limit: Option<Amount>,
    pub max_single_bet: Option<Amount>,
    pub self_exclusion_until: Option<i64>,
}

pub struct Store {
    pub events: Vec<EventRecord>,
    pub wallets: Vec<WalletRecord>,
    pub bets: Vec<Bet>,
    pub transactions: Vec<TransactionRecord>,
    pub limits: Vec<GamblingLimits>,
}

impl Store {
    pub fn new() -> (r: Store)
        ensures
            r.events@ =~= Seq::<EventRecord>::empty(),
            r.wallets@ =~= Seq::<WalletRecord>::empty(),
            r.bets@ =~= Seq::<Bet>::empty(),
            r.transactions@ =~= Seq::<TransactionRecord>::empty(),
            r.limits@ =~= Seq::<GamblingLimits>::empty(),
    {
        Store {
            events: Vec::new(),
            wallets: Vec::new(),
            bets: Vec::new(),
            transactions: Vec::new(),
            limits: Vec::new(),
        }
    }
}

/// The first event with the given id, as a row fetch would return it.
pub open spec fn find_event(events: Seq<EventRecord>, id: Id) -> Option<EventRecord>
    decreases events.len(),
{
    if events.len() == 0 {
        None
    } else if events[0].id == id {
        Some(events[0])
    } else {
        find_event(events.drop_first(), id)
    }
}

pub proof fn lemma_find_event_at(events: Seq<EventRecord>, id: Id, i: int)
    requires
        0 <= i < events.len(),
        events[i].id == id,
        forall|j: int| 0 <= j < i ==> events[j].id != id,
    ensures
        find_event(events, id) == Some(events[i]),
    decreases events.len(),
{
    if i > 0 {
        let t = events.drop_first();
        assert(forall|j: int| 0 <= j < t.len() ==> t[j] == events[j + 1]);
        lemma_find_event_at(t, id, i - 1);
    }
}

pub proof fn lemma_find_event_none(events: Seq<EventRecord>, id: Id)
    requires
        forall|j: int| 0 <= j < events.len() ==> events[j].id != id,
    ensures
        find_event(events, id) is None,
    decreases events.len(),
{
    if events.len() > 0 {
        let t = events.drop_first();
        assert(forall|j: int| 0 <= j < t.len() ==> t[j] == events[j + 1]);
        lemma_find_event_none(t, id);
    }
}

/// The index of the first wallet of the subject, or `-1`.
pub open spec fn wallet_index(wallets: Seq<WalletRecord>, user_id: Id) -> int
    decreases wallets.len(),
{
    if wallets.len() == 0 {
        -1
    } else if wallets[0].user_id == user_id {
        0
    } else {
        let t = wallet_index(wallets.drop_first(), user_id);
        if t == -1 {
            -1
        } else {
            t + 1
        }
    }
}

/// The first wallet of the subject, as a row fetch would return it.
pub open spec fn find_wallet(wallets: Seq<WalletRecord>, user_id: Id) -> Option<WalletRecord> {
    if wallet_index(wallets, user_id) == -1 {
        None
    } else {
        Some(wallets[wallet_index(wallets, user_id)])
    }
}

pub proof fn lemma_wallet_index_at(wallets: Seq<WalletRecord>, user_id: Id, i: int)
    requires
        0 <= i < wallets.len(),
        wallets[i].user_id == user_id,
        forall|j: int| 0 <= j < i ==> wallets[j].user_id != user_id,
    ensures
        wallet_index(wallets, user_id) == i,
        find_wallet(wallets, user_id) == Some(wallets[i]),
    decreases wallets.len(),
{
    if i > 0 {
        let t = wallets.drop_first();
        assert(forall|j: int| 0 <= j < t.len() ==> t[j] == wallets[j + 1]);
        lemma_wallet_index_at(t, user_id, i - 1);
    }
}

pub proof fn lemma_wallet_index_none(wallets: Seq<WalletRecord>, user_id: Id)
    requires
        forall|j: int| 0 <= j < wallets.len() ==> wallets[j].user_id != user_id,
    ensures
        wallet_index(wallets, user_id) == -1,
        find_wallet(wallets, user_id) is None,
    decreases wallets.len(),
{
    if wallets.len() > 0 {
        let t = wallets.drop_first();
        assert(forall|j: int| 0 <= j < t.len() ==> t[j] == wallets[j + 1]);
        lemma_wallet_index_none(t, user_id);
    }
}

/// The first limits row of the subject, if any.
pub open spec fn find_limits(limits: Seq<GamblingLimits>, user_id: Id) -> Option<GamblingLimits>
    decreases limits.len(),
{
    if limits.len() == 0 {
        None
    } else if limits[0].user_id == user_id {
        Some(limits[0])
    } else {
        find_limits(limits.drop_first(), user_id)
    }
}

pub proof fn lemma_find_limits_at(limits: Seq<GamblingLimits>, user_id: Id, i: int)
    requires
        0 <= i < limits.len(),
        limits[i].user_id == user_id,
        forall|j: int| 0 <= j < i ==> limits[j].user_id != user_id,
    ensures
        find_limits(limits, user_id) == Some(limits[i]),
    decreases limits.len(),
{
    if i > 0 {
        let t = limits.drop_first();
        assert(forall|j: int| 0 <= j < t.len() ==> t[j] == limits[j + 1]);
        lemma_find_limits_at(t, user_id, i - 1);
    }
}

pub proof fn lemma_find_limits_none(limits: Seq<GamblingLimits>, user_id: Id)
    requires
        forall|j: int| 0 <= j < limits.len() ==> limits[j].user_id != user_id,
    ensures
        find_limits(limits, user_id) is None,
    decreases limits.len(),
{
    if limits.len() > 0 {
        let t = limits.drop_first();
        assert(forall|j: int| 0 <= j < t.len() ==> t[j] == limits[j + 1]);
        lemma_find_limits_none(t, user_id);
    }
}

/// The first bet with the given id owned by the subject.
pub open spec fn find_bet(bets: Seq<Bet>, bet_id: Id, user_id: Id) -> Option<Bet>
    decreases bets.len(),
{
    if bets.len() == 0 {
        None
    } else if bets[0].id == bet_id && bets[0].user_id == user_id {
        Some(bets[0])
    } else {
        find_bet(bets.drop_first(), bet_id, user_id)
    }
}

pub proof fn lemma_find_bet_at(bets: Seq<Bet>, bet_id: Id, user_id: Id, i: int)
    requires
        0 <= i < bets.len(),
        bets[i].id == bet_id && bets[i].user_id == user_id,
        forall|j: int| 0 <= j < i ==> !(bets[j].id == bet_id && bets[j].user_id == user_id),
    ensures
        find_bet(bets, bet_id, user_id) == Some(bets[i]),
    decreases bets.len(),
{
    if i > 0 {
        let t = bets.drop_first();
        assert(forall|j: int| 0 <= j < t.len() ==> t[j] == bets[j + 1]);
        lemma_find_bet_at(t, bet_id, user_id, i - 1);
    }
}

pub proof fn lemma_find_bet_none(bets: Seq<Bet>, bet_id: Id, user_id: Id)
    requires
        forall|j: int| 0 <= j < bets.len() ==> !(bets[j].id == bet_id && bets[j].user_id
            == user_id),
    ensures
        find_bet(bets, bet_id, user_id) is None,
    decreases bets.len(),
{
    if bets.len() > 0 {
        let t = bets.drop_first();
        assert(forall|j: int| 0 <= j < t.len() ==> t[j] == bets[j + 1]);
        lemma_find_bet_none(t, bet_id, user_id);
    }
}

/// Whether a bet counts toward the subject's spend inside a trailing
/// window of whole days: owned by the subject, not cancelled, and created
/// after the cutoff.
pub open spec fn counts_toward(b: Bet, user_id: Id, now: i64, days: u64) -> bool {
    b.user_id == user_id && !(b.status is Cancelled) && b.created_at > now - (days as int) * 86400
}

/// The summed stakes, in cents, of the subject's non-cancelled bets in a
/// trailing window of whole days.
pub open spec fn period_total(bets: Seq<Bet>, user_id: Id, now: i64, days: u64) -> int
    decreases bets.len(),
{
    if bets.len() == 0 {
        0
    } else {
        period_total(bets.drop_last(), user_id, now, days) + if counts_toward(
            bets.last(),
            user_id,
            now,
            days,
        ) {
            bets.last().amount.cents as int
        } else {
            0
        }
    }
}

/// Whether a bet falls in the subject's trailing window of `window`
/// seconds, regardless of status (as the fraud queries count them).
pub open spec fn in_window(b: Bet, user_id: Id, now: i64, window: u64) -> bool {
    b.user_id == user_id && b.created_at > now - window
}

/// How many of the subject's bets fall in the trailing window.
pub open spec fn window_count(bets: Seq<Bet>, user_id: Id, now: i64, window: u64) -> int
    decreases bets.len(),
{
    if bets.len() == 0 {
        0
    } else {
        window_count(bets.drop_last(), user_id, now, window) + if in_window(
            bets.last(),
            user_id,
            now,
            window,
        ) {
            1int
        } else {
            0int
        }
    }
}

/// The summed stakes, in cents, of the subject's bets in the trailing
/// window.
pub open spec fn window_sum(bets: Seq<Bet>, user_id: Id, now: i64, window: u64) -> int
    decreases bets.len(),
{
    if bets.len() == 0 {
        0
    } else {
        window_sum(bets.drop_last(), user_id, now, window) + if in_window(
            bets.last(),
            user_id,
            now,
            window,
        ) {
            bets.last().amount.cents as int
        } else {
            0
        }
    }
}

/// Window sums never exceed the stake bound times the count of rows.
pub proof fn lemma_period_total_bound(bets: Seq<Bet>, user_id: Id, now: i64, days: u64)
    ensures
        0 <= period_total(bets, user_id, now, days) <= bets.len() * 0xffff_ffff_ffff_ffff,
    decreases bets.len(),
{
    if bets.len() > 0 {
        lemma_period_total_bound(bets.drop_last(), user_id, now, days);
        assert((bets.len() - 1) * 0xffff_ffff_ffff_ffff + 0xffff_ffff_ffff_ffff == bets.len()
            * 0xffff_ffff_ffff_ffff) by (nonlinear_arith);
    }
}

} // verus!
