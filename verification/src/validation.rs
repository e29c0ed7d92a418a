//! Input sanitization and the small request validators.

use vstd::prelude::*;

use vstd::string::StrSliceExecFns;

use crate::errors::AppError;
use crate::text::{
    char_alphanumeric, char_lowercase, char_numeric, char_uppercase, char_whitespace,
    is_alphanumeric_char, is_lowercase_char, is_numeric_char, is_uppercase_char,
    is_whitespace_char, push_char, str_eq,
};

use vstd::string::StringSliceAdditionalSpecFns;

verus! {

/// The characters `sanitize_string` lets through: alphanumerics,
/// whitespace, and the few symbols an email or a name needs.
pub open spec fn keep_char(c: char) -> bool {
    char_alphanumeric(c) || char_whitespace(c) || c == '@' || c == '.' || c == '-' || c == '_'
}

/// The subsequence of characters that are let through, in order.
pub open spec fn kept_chars(s: Seq<char>) -> Seq<char>
    decreases s.len(),
{
    if s.len() == 0 {
        Seq::empty()
    } else {
        kept_chars(s.drop_last()) + (if keep_char(s.last()) {
            seq![s.last()]
        } else {
            Seq::empty()
        })
    }
}

/// The sequence with leading whitespace removed.
pub open spec fn trim_front(s: Seq<char>) -> Seq<char>
    decreases s.len(),
{
    if s.len() > 0 && char_whitespace(s[0]) {
        trim_front(s.drop_first())
    } else {
        s
    }
}

/// The sequence with trailing whitespace removed.
pub open spec fn trim_back(s: Seq<char>) -> Seq<char>
    decreases s.len(),
{
    if s.len() > 0 && char_whitespace(s.last()) {
        trim_back(s.drop_last())
    } else {
        s
    }
}

/// The sequence with whitespace removed from both ends.
pub open spec fn trimmed(s: Seq<char>) -> Seq<char> {
    trim_back(trim_front(s))
}

proof fn lemma_trim_front(s: Seq<char>, k: int)
    requires
        0 <= k <= s.len(),
        forall|j: int| 0 <= j < k ==> char_whitespace(s[j]),
        k < s.len() ==> !char_whitespace(s[k]),
    ensures
        trim_front(s) == s.skip(k),
    decreases k,
{
    if k == 0 {
        assert(s.skip(0) =~= s);
        if s.len() > 0 {
            assert(!char_whitespace(s[0]));
        }
    } else {
        let t = s.drop_first();
        assert(forall|j: int| 0 <= j < t.len() ==> t[j] == s[j + 1]);
        lemma_trim_front(t, k - 1);
        assert(t.skip(k - 1) =~= s.skip(k));
    }
}

proof fn lemma_trim_back(s: Seq<char>, m: int)
    requires
        0 <= m <= s.len(),
        forall|j: int| m <= j < s.len() ==> char_whitespace(s[j]),
        m > 0 ==> !char_whitespace(s[m - 1]),
    ensures
        trim_back(s) == s.take(m),
    decreases s.len(),
{
    if m == s.len() {
        if s.len() > 0 && char_whitespace(s.last()) {
            let t = s.drop_last();
            assert(forall|j: int| 0 <= j < t.len() ==> t[j] == s[j]);
            lemma_trim_back(t, m - 1);
            assert(t.take(m - 1) =~= s.take(m - 1));
            assert(char_whitespace(s[m - 1]));
            assert(false);
        } else {
            assert(s.take(m) =~= s);
        }
    } else {
        let t = s.drop_last();
        assert(char_whitespace(s.last()));
        assert(forall|j: int| 0 <= j < t.len() ==> t[j] == s[j]);
        lemma_trim_back(t, m);
        assert(t.take(m) =~= s.take(m));
    }
}

/// Trims the input and keeps only alphanumerics, whitespace, `@`, `.`,
/// `-` and `_`, keeping their order.
pub fn sanitize_string(input: &str) -> (r: String)
    ensures
        r@ == kept_chars(trimmed(input@)),
{
    let n = input.unicode_len();
    let mut start: usize = 0;
    while start < n && is_whitespace_char(input.get_char(start))
        invariant
            n == input@.len(),
            start <= n,
            forall|j: int| 0 <= j < start ==> char_whitespace(input@[j]),
        decreases n - start,
    {
        start += 1;
    }
    let mut end: usize = n;
    while end > start && is_whitespace_char(input.get_char(end - 1))
        invariant
            n == input@.len(),
            start <= end <= n,
            forall|j: int| end <= j < n ==> char_whitespace(input@[j]),
            forall|j: int| 0 <= j < start ==> char_whitespace(input@[j]),
            start < n ==> !char_whitespace(input@[start as int]),
        decreases end,
    {
        end -= 1;
    }
    proof {
        lemma_trim_front(input@, start as int);
        let su = input@.skip(start as int);
        assert(forall|j: int| 0 <= j < su.len() ==> su[j] == input@[j + start]);
        lemma_trim_back(su, end - start);
        assert(trimmed(input@) =~= input@.subrange(start as int, end as int)) by {
            assert(su.take(end - start) =~= input@.subrange(start as int, end as int));
        }
    }
    let mut out = String::new();
    let mut j: usize = start;
    proof {
        assert(input@.subrange(start as int, start as int) =~= Seq::<char>::empty());
        assert(out@ =~= kept_chars(input@.subrange(start as int, start as int)));
    }
    while j < end
        invariant
            n == input@.len(),
            start <= j <= end <= n,
            out@ =~= kept_chars(input@.subrange(start as int, j as int)),
        decreases end - j,
    {
        let c = input.get_char(j);
        proof {
            let pre = input@.subrange(start as int, j as int);
            let cur = input@.subrange(start as int, j + 1 as int);
            assert(cur.drop_last() =~= pre);
            assert(cur.last() == input@[j as int]);
        }
        let keep = is_alphanumeric_char(c) || is_whitespace_char(c) || c == '@' || c == '.' || c
            == '-' || c == '_';
        if keep {
            push_char(&mut out, c);
        }
        j += 1;
        proof {
            assert(out@ =~= kept_chars(input@.subrange(start as int, j as int)));
        }
    }
    out
}

/// The market names a bet may use.
pub fn validate_bet_type(bet_type: &str) -> (r: Result<(), AppError>)
    ensures
        r is Ok <==> (bet_type@ == "moneyline"@ || bet_type@ == "spread"@ || bet_type@
            == "total"@),
        r matches Err(e) ==> e is Validation,
{
    if str_eq(bet_type, "moneyline") || str_eq(bet_type, "spread") || str_eq(bet_type, "total") {
        Ok(())
    } else {
        Err(AppError::Validation(String::from_str("Invalid bet type")))
    }
}

/// The selection names a bet may use.
pub fn validate_selection(selection: &str) -> (r: Result<(), AppError>)
    ensures
        r is Ok <==> (selection@ == "home"@ || selection@ == "away"@ || selection@ == "over"@
            || selection@ == "under"@),
        r matches Err(e) ==> e is Validation,
{
    if str_eq(selection, "home") || str_eq(selection, "away") || str_eq(selection, "over")
        || str_eq(selection, "under") {
        Ok(())
    } else {
        Err(AppError::Validation(String::from_str("Invalid selection")))
    }
}

/// A coarse email shape check: the address must hold an `@` and a dot.
pub fn validate_email(email: &str) -> (r: Result<(), AppError>)
    ensures
        r is Ok <==> ((exists|i: int| 0 <= i < email@.len() && email@[i] == '@') && (
        exists|i: int| 0 <= i < email@.len() && email@[i] == '.')),
        r matches Err(e) ==> e is Validation,
{
    let n = email.unicode_len();
    let mut has_at = false;
    let mut has_dot = false;
    let mut i: usize = 0;
    while i < n
        invariant
            n == email@.len(),
            i <= n,
            has_at <==> (exists|j: int| 0 <= j < i && email@[j] == '@'),
            has_dot <==> (exists|j: int| 0 <= j < i && email@[j] == '.'),
        decreases n - i,
    {
        let c = email.get_char(i);
        if c == '@' {
            has_at = true;
        }
        if c == '.' {
            has_dot = true;
        }
        i += 1;
    }
    if has_at && has_dot {
        Ok(())
    } else {
        Err(AppError::Validation(String::from_str("Invalid email format")))
    }
}

/// A password passes when it is at least eight bytes long and holds an
/// uppercase letter, a lowercase letter, a digit and a character that is
/// none of those; the first missing requirement names the failure.
pub fn validate_password(password: &str) -> (r: Result<(), String>)
    ensures
        r is Ok <==> (password.spec_bytes().len() as usize >= 8 && (exists|i: int|
            0 <= i < password@.len() && char_uppercase(#[trigger] password@[i])) && (
        exists|i: int|
            0 <= i < password@.len() && char_lowercase(#[trigger] password@[i])) && (
        exists|i: int| 0 <= i < password@.len() && char_numeric(#[trigger] password@[i])) && (
        exists|i: int| 0 <= i < password@.len() && !char_alphanumeric(#[trigger] password@[i]))),
{
    if password.len() < 8 {
        return Err(String::from_str("Password must be at least 8 characters"));
    }
    let n = password.unicode_len();
    let mut has_upper = false;
    let mut has_lower = false;
    let mut has_digit = false;
    let mut has_special = false;
    let mut i: usize = 0;
    while i < n
        invariant
            n == password@.len(),
            i <= n,
            has_upper <==> (exists|j: int|
                0 <= j < i && char_uppercase(#[trigger] password@[j])),
            has_lower <==> (exists|j: int|
                0 <= j < i && char_lowercase(#[trigger] password@[j])),
            has_digit <==> (exists|j: int| 0 <= j < i && char_numeric(#[trigger] password@[j])),
            has_special <==> (exists|j: int|
                0 <= j < i && !char_alphanumeric(#[trigger] password@[j])),
        decreases n - i,
    {
        let c = password.get_char(i);
        if is_uppercase_char(c) {
            has_upper = true;
        }
        if is_lowercase_char(c) {
            has_lower = true;
        }
        if is_numeric_char(c) {
            has_digit = true;
        }
        if !is_alphanumeric_char(c) {
            has_special = true;
        }
        i += 1;
    }
    if !has_upper {
        return Err(String::from_str("Password must contain at least one uppercase letter"));
    }
    if !has_lower {
        return Err(String::from_str("Password must contain at least one lowercase letter"));
    }
    if !has_digit {
        return Err(String::from_str("Password must contain at least one number"));
    }
    if !has_special {
        return Err(String::from_str("Password must contain at least one special character"));
    }
    Ok(())
}

/// A calendar date as plain values; the collaborator that owns real
/// calendars converts to and from its own date type.
#[derive(Clone, Copy, Debug, PartialEq, Eq, Structural)]
pub struct Date {
    pub year: i32,
    pub month: u8,
    pub day: u8,
}

/// Whole years from `base` until `today`, never negative: the year
/// difference, less one when the anniversary has not yet been reached.
pub open spec fn years_between(base: Date, today: Date) -> int {
    let diff = today.year - base.year - (if today.month < base.month || (today.month == base.month
        && today.day < base.day) {
        1int
    } else {
        0int
    });
    if diff >= 0 {
        diff
    } else {
        0
    }
}

/// Subjects must be at least twenty-one years old on the day they
/// register.
pub fn validate_age(date_of_birth: &Date, today: &Date) -> (r: Result<(), AppError>)
    ensures
        r is Ok <==> years_between(*date_of_birth, *today) >= 21,
        r matches Err(e) ==> e is Validation,
{
    let anniversary_pending = today.month < date_of_birth.month || (today.month
        == date_of_birth.month && today.day < date_of_birth.day);
    let adjust: i64 = if anniversary_pending {
        1
    } else {
        0
    };
    let diff: i64 = (today.year as i64) - (date_of_birth.year as i64) - adjust;
    let age: i64 = if diff >= 0 {
        diff
    } else {
        0
    };
    if age < 21 {
        return Err(AppError::Validation(String::from_str(
            "Must be 21 years or older to register",
        )));
    }
    Ok(())
}

} // verus!
