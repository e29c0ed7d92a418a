use betcore::validation::{sanitize_string, validate_bet_type, validate_email, validate_selection};
use betcore::validation::validate_password;
use chrono::Datelike;

#[test]
fn test_validate_bet_type() {
    assert!(validate_bet_type("moneyline").is_ok());
    assert!(validate_bet_type("spread").is_ok());
    assert!(validate_bet_type("total").is_ok());
    assert!(validate_bet_type("invalid").is_err());
}

#[test]
fn test_validate_selection() {
    assert!(validate_selection("home").is_ok());
    assert!(validate_selection("away").is_ok());
    assert!(validate_selection("over").is_ok());
    assert!(validate_selection("under").is_ok());
    assert!(validate_selection("invalid").is_err());
}

#[test]
fn test_sanitize_string() {
    let input = "test@example.com<script>alert('xss')</script>";
    let sanitized = sanitize_string(input);
    assert!(!sanitized.contains("<script>"));
}

#[test]
fn test_sanitize_string_trims_and_keeps() {
    assert_eq!(sanitize_string("  user name_1@mail.com  "), "user name_1@mail.com");
    assert_eq!(sanitize_string("a<b>c"), "abc");
    assert_eq!(sanitize_string("   "), "");
}

#[test]
fn test_validate_email_rules() {
    assert!(validate_email("user@example.com").is_ok());
    assert!(validate_email("no-at-sign.com").is_err());
    assert!(validate_email("no-dot@com").is_err());
}

#[test]
fn test_validate_age_valid() {
    let dob = betcore::validation::Date { year: 1990, month: 1, day: 1 };
    let today = today_from_clock();
    assert!(betcore::validation::validate_age(&dob, &today).is_ok());
}

#[test]
fn test_validate_age_invalid() {
    let dob = betcore::validation::Date { year: 2010, month: 1, day: 1 };
    let today = today_from_clock();
    assert!(betcore::validation::validate_age(&dob, &today).is_err());
}

fn today_from_clock() -> betcore::validation::Date {
    let now = chrono::Utc::now().date_naive();
    betcore::validation::Date {
        year: now.year(),
        month: now.month() as u8,
        day: now.day() as u8,
    }
}

#[test]
fn test_validate_age_boundary() {
    let dob = betcore::validation::Date { year: 2000, month: 6, day: 15 };
    let on_birthday = betcore::validation::Date { year: 2021, month: 6, day: 15 };
    let day_before = betcore::validation::Date { year: 2021, month: 6, day: 14 };
    assert!(betcore::validation::validate_age(&dob, &on_birthday).is_ok());
    assert!(betcore::validation::validate_age(&dob, &day_before).is_err());
}

#[test]
fn test_validate_password_rules() {
    assert!(validate_password("Str0ng!pass").is_ok());
    assert_eq!(
        validate_password("short"),
        Err(String::from("Password must be at least 8 characters"))
    );
    assert_eq!(
        validate_password("alllower1!"),
        Err(String::from("Password must contain at least one uppercase letter"))
    );
    assert_eq!(
        validate_password("ALLUPPER1!"),
        Err(String::from("Password must contain at least one lowercase letter"))
    );
    assert_eq!(
        validate_password("NoNumbers!"),
        Err(String::from("Password must contain at least one number"))
    );
    assert_eq!(
        validate_password("NoSpecial1"),
        Err(String::from("Password must contain at least one special character"))
    );
}
