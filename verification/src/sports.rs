//! Display metadata for the sports the platform lists.

use vstd::prelude::*;

use crate::text::{ascii_upper, str_eq_ignore_ascii_case};

verus! {

/// The display name and icon for a sport key, matched ignoring ASCII
/// case; an unknown key is shown as itself with a generic icon.
pub open spec fn sport_metadata_of(s: Seq<char>) -> (Seq<char>, Seq<char>) {
    let u = ascii_upper(s);
    if u == ascii_upper("NFL"@) || u == ascii_upper("FOOTBALL"@) {
        ("NFL Football"@, "🏈"@)
    } else if u == ascii_upper("NBA"@) || u == ascii_upper("BASKETBALL"@) {
        ("NBA Basketball"@, "🏀"@)
    } else if u == ascii_upper("MLB"@) || u == ascii_upper("BASEBALL"@) {
        ("MLB Baseball"@, "⚾"@)
    } else if u == ascii_upper("NHL"@) || u == ascii_upper("HOCKEY"@) {
        ("NHL Hockey"@, "🏒"@)
    } else if u == ascii_upper("SOCCER"@) || u == ascii_upper("FOOTBALL_SOCCER"@) {
        ("Soccer"@, "⚽"@)
    } else if u == ascii_upper("MMA"@) || u == ascii_upper("UFC"@) {
        ("MMA / UFC"@, "🥊"@)
    } else if u == ascii_upper("BOXING"@) {
        ("Boxing"@, "🥊"@)
    } else if u == ascii_upper("TENNIS"@) {
        ("Tennis"@, "🎾"@)
    } else if u == ascii_upper("GOLF"@) {
        ("Golf"@, "⛳"@)
    } else if u == ascii_upper("ESPORTS"@) {
        ("eSports"@, "🎮"@)
    } else {
        (s, "🏅"@)
    }
}

/// The display name and icon for a sport key.
pub fn get_sport_metadata(sport: &str) -> (r: (String, String))
    ensures
        (r.0@, r.1@) == sport_metadata_of(sport@),
{
    if str_eq_ignore_ascii_case(sport, "NFL") || str_eq_ignore_ascii_case(sport, "FOOTBALL") {
        (String::from_str("NFL Football"), String::from_str("🏈"))
    } else if str_eq_ignore_ascii_case(sport, "NBA") || str_eq_ignore_ascii_case(
        sport,
        "BASKETBALL",
    ) {
        (String::from_str("NBA Basketball"), String::from_str("🏀"))
    } else if str_eq_ignore_ascii_case(sport, "MLB") || str_eq_ignore_ascii_case(
        sport,
        "BASEBALL",
    ) {
        (String::from_str("MLB Baseball"), String::from_str("⚾"))
    } else if str_eq_ignore_ascii_case(sport, "NHL") || str_eq_ignore_ascii_case(
        sport,
        "HOCKEY",
    ) {
        (String::from_str("NHL Hockey"), String::from_str("🏒"))
    } else if str_eq_ignore_ascii_case(sport, "SOCCER") || str_eq_ignore_ascii_case(
        sport,
        "FOOTBALL_SOCCER",
    ) {
        (String::from_str("Soccer"), String::from_str("⚽"))
    } else if str_eq_ignore_ascii_case(sport, "MMA") || str_eq_ignore_ascii_case(sport, "UFC") {
        (String::from_str("MMA / UFC"), String::from_str("🥊"))
    } else if str_eq_ignore_ascii_case(sport, "BOXING") {
        (String::from_str("Boxing"), String::from_str("🥊"))
    } else if str_eq_ignore_ascii_case(sport, "TENNIS") {
        (String::from_str("Tennis"), String::from_str("🎾"))
    } else if str_eq_ignore_ascii_case(sport, "GOLF") {
        (String::from_str("Golf"), String::from_str("⛳"))
    } else if str_eq_ignore_ascii_case(sport, "ESPORTS") {
        (String::from_str("eSports"), String::from_str("🎮"))
    } else {
        (String::from_str(sport), String::from_str("🏅"))
    }
}

} // verus!
