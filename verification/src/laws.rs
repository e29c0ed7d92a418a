//! Laws the placement core obeys, stated over the ledger model and proved
//! from the contracts the orchestrator maintains.

use vstd::prelude::*;

use crate::amount::Amount;
use crate::betting::{
    audit_links, event_open, limits_denial, post_balance_error, pre_balance_error,
    PlaceBetRequest, MINIMUM_STAKE_CENTS,
};
use crate::errors::AppError;
use crate::store::{find_event, find_limits, period_total, Bet, GamblingLimits, Id, Store,
    TransactionRecord};

verus! {

/// One audit row is balanced: the balance after plus the stake debited is
/// exactly the balance before.
pub open spec fn audit_balanced(t: TransactionRecord) -> bool {
    t.balance_after.cents + t.amount.cents == t.balance_before.cents
}

/// The total of stakes debited across a ledger, in cents.
pub open spec fn sum_stakes(ts: Seq<TransactionRecord>) -> int
    decreases ts.len(),
{
    if ts.len() == 0 {
        0
    } else {
        sum_stakes(ts.drop_last()) + ts.last().amount.cents as int
    }
}

/// The total drop in balances across a ledger, in cents.
pub open spec fn sum_balance_drops(ts: Seq<TransactionRecord>) -> int
    decreases ts.len(),
{
    if ts.len() == 0 {
        0
    } else {
        sum_balance_drops(ts.drop_last()) + (ts.last().balance_before.cents as int
            - ts.last().balance_after.cents as int)
    }
}

/// Conservation: across any sequence of balanced audit rows — and every
/// successful placement appends one, see `lemma_placement_audit_balanced`
/// — the summed balance drops equal the summed stakes debited, and no row
/// ever increases a balance.
pub proof fn lemma_conservation(ts: Seq<TransactionRecord>)
    requires
        forall|i: int| 0 <= i < ts.len() ==> audit_balanced(#[trigger] ts[i]),
    ensures
        sum_balance_drops(ts) == sum_stakes(ts),
        forall|i: int|
            0 <= i < ts.len() ==> (#[trigger] ts[i]).balance_after.cents
                <= ts[i].balance_before.cents,
    decreases ts.len(),
{
    if ts.len() > 0 {
        let p = ts.drop_last();
        assert(forall|i: int| 0 <= i < p.len() ==> p[i] == ts[i]);
        lemma_conservation(p);
        assert(audit_balanced(ts.last())) by {
            assert(ts.last() == ts[ts.len() - 1]);
        }
    }
}

/// The audit row a successful placement appends — `place_bet` ensures
/// `audit_links` of it — is balanced, so the whole ledger stays under
/// `lemma_conservation`.
pub proof fn lemma_placement_audit_balanced(
    t: TransactionRecord,
    user_id: Id,
    wallet_id: Id,
    stake: Amount,
    balance_before: Amount,
    bet_id: Id,
    now: i64,
)
    requires
        audit_links(t, user_id, wallet_id, stake, balance_before, bet_id, now),
    ensures
        audit_balanced(t),
{
}

/// A debit is allowed only while the stake fits in the balance.
pub open spec fn debit_allowed(balance: Amount, stake: Amount) -> bool {
    stake.cents <= balance.cents
}

/// Concurrent debit safety, in the serialized order the store's isolation
/// guarantees: when two stakes together exceed the wallet's balance and
/// the first was debited, the second runs its funds check against the
/// debited balance — `place_bet` re-seals exactly `balance - stake` — and
/// is denied with `InsufficientFunds`. Two such placements can never both
/// succeed.
pub proof fn lemma_concurrent_debit_safety(
    balance: Amount,
    stake1: Amount,
    stake2: Amount,
    s1: Store,
    user_id: Id,
    req2: PlaceBetRequest,
    now: i64,
)
    requires
        debit_allowed(balance, stake1),
        stake1.cents + stake2.cents > balance.cents,
        req2.amount == stake2,
    ensures
        !debit_allowed(Amount { cents: (balance.cents - stake1.cents) as u64 }, stake2),
        post_balance_error(
            s1,
            user_id,
            req2,
            now,
            Amount { cents: (balance.cents - stake1.cents) as u64 },
        ) == Some(AppError::InsufficientFunds),
{
}

/// No bet references a closed event or a past start: a placement only
/// proceeds past the validation steps — `pre_balance_error` is `None` —
/// when the event exists, is open at `now`, and the stake meets the floor.
pub proof fn lemma_no_bet_on_closed_event(s0: Store, req: PlaceBetRequest, now: i64)
    requires
        pre_balance_error(s0, req, now) is None,
    ensures
        find_event(s0.events@, req.event_id) is Some,
        event_open(find_event(s0.events@, req.event_id)->Some_0, now),
        req.amount.cents >= MINIMUM_STAKE_CENTS,
{
}

/// Window caps hold at the moment of approval: when the limit evaluator
/// raises no denial, every configured trailing window still has room for
/// the stake as of the snapshot the check ran against.
pub proof fn lemma_windows_within_caps(
    limits: Seq<GamblingLimits>,
    bets: Seq<Bet>,
    user_id: Id,
    stake: Amount,
    now: i64,
)
    requires
        limits_denial(limits, bets, user_id, stake, now) is None,
        find_limits(limits, user_id) is Some,
    ensures
        ({
            let l = find_limits(limits, user_id)->Some_0;
            &&& (l.daily_bet_limit matches Some(cap) ==> period_total(bets, user_id, now, 1)
                + stake.cents <= cap.cents)
            &&& (l.weekly_bet_limit matches Some(cap) ==> period_total(bets, user_id, now, 7)
                + stake.cents <= cap.cents)
            &&& (l.monthly_bet_limit matches Some(cap) ==> period_total(bets, user_id, now, 30)
                + stake.cents <= cap.cents)
            &&& (l.max_single_bet matches Some(m) ==> stake.cents <= m.cents)
            &&& (l.self_exclusion_until matches Some(t) ==> t <= now)
        }),
{
}

} // verus!
