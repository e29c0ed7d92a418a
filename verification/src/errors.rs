//! The error taxonomy of the wagering core.
//!
//! Every pipeline step reports a specific kind rather than a generic
//! failure, so an HTTP layer can map each kind to a status code without
//! inspecting internals. Store-level and cipher-level failures carry a
//! message; domain-rule denials are plain variants.

use vstd::prelude::*;

verus! {

#[derive(Debug)]
pub enum AppError {
    /// Store/transaction level failure, with a diagnostic message.
    Database(String),
    Validation(String),
    Authentication(String),
    Authorization(String),
    RateLimit,
    /// Carries the configured quota for client messaging.
    RateLimitExceeded(String),
    Internal(String),
    AccountLocked,
    InsufficientFunds,
    BetLimitExceeded,
    EventNotFound,
    BetNotFound,
    UserNotFound,
    InvalidBetAmount,
    /// The requested market/selection pair is not offered by the event.
    InvalidSelection,
    OddsChanged,
    EventNotAvailable,
    /// Tamper, corruption, or malformed plaintext on decrypt.
    Encryption(String),
    Configuration(String),
    AgeVerificationFailed,
    SelfExclusionActive,
    ResponsibleGamblingLimit(String),
    SuspiciousActivity,
    SessionExpired,
    InvalidCSRFToken,
    TooManyLoginAttempts,
    PasswordTooWeak,
    EmailAlreadyRegistered,
    InvalidEmailFormat,
    WalletOperation(String),
    InternalServerError,
}

impl AppError {
    pub fn is_fraud_related(&self) -> (r: bool)
        ensures
            r == (self is SuspiciousActivity || self is RateLimit || self is RateLimitExceeded
                || self is TooManyLoginAttempts),
    {
        match self {
            AppError::SuspiciousActivity => true,
            AppError::RateLimit => true,
            AppError::RateLimitExceeded(_) => true,
            AppError::TooManyLoginAttempts => true,
            _ => false,
        }
    }

    pub fn requires_logging(&self) -> (r: bool)
        ensures
            r == (self is Authentication || self is Authorization || self is SuspiciousActivity
                || self is InsufficientFunds || self is AccountLocked
                || self is TooManyLoginAttempts),
    {
        match self {
            AppError::Authentication(_) => true,
            AppError::Authorization(_) => true,
            AppError::SuspiciousActivity => true,
            AppError::InsufficientFunds => true,
            AppError::AccountLocked => true,
            AppError::TooManyLoginAttempts => true,
            _ => false,
        }
    }

    /// The HTTP status code a surrounding API layer should answer with.
    pub fn status_code(&self) -> (r: u16)
        ensures
            self is InsufficientFunds ==> r == 402,
            self is EventNotFound || self is BetNotFound || self is UserNotFound ==> r == 404,
            self is RateLimit || self is RateLimitExceeded || self is TooManyLoginAttempts ==> r
                == 429,
            self is OddsChanged || self is EmailAlreadyRegistered ==> r == 409,
            self is EventNotAvailable ==> r == 410,
            self is AccountLocked ==> r == 423,
    {
        match self {
            AppError::Database(_) => 500,
            AppError::Validation(_) => 400,
            AppError::Authentication(_) => 401,
            AppError::Authorization(_) => 403,
            AppError::RateLimit => 429,
            AppError::RateLimitExceeded(_) => 429,
            AppError::Internal(_) => 500,
            AppError::AccountLocked => 423,
            AppError::InsufficientFunds => 402,
            AppError::BetLimitExceeded => 400,
            AppError::EventNotFound => 404,
            AppError::BetNotFound => 404,
            AppError::UserNotFound => 404,
            AppError::InvalidBetAmount => 400,
            AppError::InvalidSelection => 400,
            AppError::OddsChanged => 409,
            AppError::EventNotAvailable => 410,
            AppError::Encryption(_) => 500,
            AppError::Configuration(_) => 500,
            AppError::AgeVerificationFailed => 400,
            AppError::SelfExclusionActive => 403,
            AppError::ResponsibleGamblingLimit(_) => 400,
            AppError::SuspiciousActivity => 403,
            AppError::SessionExpired => 401,
            AppError::InvalidCSRFToken => 403,
            AppError::TooManyLoginAttempts => 429,
            AppError::PasswordTooWeak => 400,
            AppError::EmailAlreadyRegistered => 409,
            AppError::InvalidEmailFormat => 400,
            AppError::WalletOperation(_) => 500,
            AppError::InternalServerError => 500,
        }
    }

    /// A stable machine-readable tag for each kind.
    pub fn error_type(&self) -> (r: &'static str)
        ensures
            self is Database ==> r@ == "DATABASE_ERROR"@,
            self is Validation ==> r@ == "VALIDATION_ERROR"@,
            self is Authentication ==> r@ == "AUTHENTICATION_ERROR"@,
            self is Authorization ==> r@ == "AUTHORIZATION_ERROR"@,
            self is RateLimit ==> r@ == "RATE_LIMIT_ERROR"@,
            self is RateLimitExceeded ==> r@ == "RATE_LIMIT_EXCEEDED"@,
            self is Internal ==> r@ == "INTERNAL_ERROR"@,
            self is AccountLocked ==> r@ == "ACCOUNT_LOCKED"@,
            self is InsufficientFunds ==> r@ == "INSUFFICIENT_FUNDS"@,
            self is BetLimitExceeded ==> r@ == "BET_LIMIT_EXCEEDED"@,
            self is EventNotFound ==> r@ == "EVENT_NOT_FOUND"@,
            self is BetNotFound ==> r@ == "BET_NOT_FOUND"@,
            self is UserNotFound ==> r@ == "USER_NOT_FOUND"@,
            self is InvalidBetAmount ==> r@ == "INVALID_BET_AMOUNT"@,
            self is InvalidSelection ==> r@ == "INVALID_SELECTION"@,
            self is OddsChanged ==> r@ == "ODDS_CHANGED"@,
            self is EventNotAvailable ==> r@ == "EVENT_NOT_AVAILABLE"@,
            self is Encryption ==> r@ == "ENCRYPTION_ERROR"@,
            self is Configuration ==> r@ == "CONFIGURATION_ERROR"@,
            self is AgeVerificationFailed ==> r@ == "AGE_VERIFICATION_FAILED"@,
            self is SelfExclusionActive ==> r@ == "SELF_EXCLUSION_ACTIVE"@,
            self is ResponsibleGamblingLimit ==> r@ == "RESPONSIBLE_GAMBLING_LIMIT"@,
            self is SuspiciousActivity ==> r@ == "SUSPICIOUS_ACTIVITY"@,
            self is SessionExpired ==> r@ == "SESSION_EXPIRED"@,
            self is InvalidCSRFToken ==> r@ == "INVALID_CSRF_TOKEN"@,
            self is TooManyLoginAttempts ==> r@ == "TOO_MANY_LOGIN_ATTEMPTS"@,
            self is PasswordTooWeak ==> r@ == "PASSWORD_TOO_WEAK"@,
            self is EmailAlreadyRegistered ==> r@ == "EMAIL_ALREADY_REGISTERED"@,
            self is InvalidEmailFormat ==> r@ == "INVALID_EMAIL_FORMAT"@,
            self is WalletOperation ==> r@ == "WALLET_OPERATION_ERROR"@,
            self is InternalServerError ==> r@ == "INTERNAL_SERVER_ERROR"@,
    {
        match self {
            AppError::Database(_) => "DATABASE_ERROR",
            AppError::Validation(_) => "VALIDATION_ERROR",
            AppError::Authentication(_) => "AUTHENTICATION_ERROR",
            AppError::Authorization(_) => "AUTHORIZATION_ERROR",
            AppError::RateLimit => "RATE_LIMIT_ERROR",
            AppError::RateLimitExceeded(_) => "RATE_LIMIT_EXCEEDED",
            AppError::Internal(_) => "INTERNAL_ERROR",
            AppError::AccountLocked => "ACCOUNT_LOCKED",
            AppError::InsufficientFunds => "INSUFFICIENT_FUNDS",
            AppError::BetLimitExceeded => "BET_LIMIT_EXCEEDED",
            AppError::EventNotFound => "EVENT_NOT_FOUND",
            AppError::BetNotFound => "BET_NOT_FOUND",
            AppError::UserNotFound => "USER_NOT_FOUND",
            AppError::InvalidBetAmount => "INVALID_BET_AMOUNT",
            AppError::InvalidSelection => "INVALID_SELECTION",
            AppError::OddsChanged => "ODDS_CHANGED",
            AppError::EventNotAvailable => "EVENT_NOT_AVAILABLE",
            AppError::Encryption(_) => "ENCRYPTION_ERROR",
            AppError::Configuration(_) => "CONFIGURATION_ERROR",
            AppError::AgeVerificationFailed => "AGE_VERIFICATION_FAILED",
            AppError::SelfExclusionActive => "SELF_EXCLUSION_ACTIVE",
            AppError::ResponsibleGamblingLimit(_) => "RESPONSIBLE_GAMBLING_LIMIT",
            AppError::SuspiciousActivity => "SUSPICIOUS_ACTIVITY",
            AppError::SessionExpired => "SESSION_EXPIRED",
            AppError::InvalidCSRFToken => "INVALID_CSRF_TOKEN",
            AppError::TooManyLoginAttempts => "TOO_MANY_LOGIN_ATTEMPTS",
            AppError::PasswordTooWeak => "PASSWORD_TOO_WEAK",
            AppError::EmailAlreadyRegistered => "EMAIL_ALREADY_REGISTERED",
            AppError::InvalidEmailFormat => "INVALID_EMAIL_FORMAT",
            AppError::WalletOperation(_) => "WALLET_OPERATION_ERROR",
            AppError::InternalServerError => "INTERNAL_SERVER_ERROR",
        }
    }

    /// A message safe to show to the client for this kind.
    pub fn client_safe_message(&self) -> (r: &'static str)
        ensures
            self is Database ==> r@ == "Database operation failed"@,
            self is Validation ==> r@ == "Validation failed"@,
            self is Authentication ==> r@ == "Authentication failed"@,
            self is Authorization ==> r@ == "Access denied"@,
            self is RateLimit ==> r@ == "Too many requests. Please try again later"@,
            self is RateLimitExceeded ==> r@ == "Rate limit exceeded"@,
            self is Internal ==> r@ == "Internal error"@,
            self is AccountLocked ==> r@ == "Account temporarily locked. Please try again later"@,
            self is InsufficientFunds ==> r@ == "Insufficient funds for this operation"@,
            self is BetLimitExceeded ==> r@ == "Bet amount exceeds limit"@,
            self is EventNotFound ==> r@ == "Event not found"@,
            self is BetNotFound ==> r@ == "Bet not found"@,
            self is UserNotFound ==> r@ == "User not found"@,
            self is InvalidBetAmount ==> r@ == "Invalid bet amount"@,
            self is InvalidSelection ==> r@ == "Unknown market or selection"@,
            self is OddsChanged ==> r@ == "Odds have changed since you last viewed them"@,
            self is EventNotAvailable ==> r@ == "This event is no longer available for betting"@,
            self is Encryption ==> r@ == "Encryption error occurred"@,
            self is Configuration ==> r@ == "Server configuration error"@,
            self is AgeVerificationFailed ==> r@ == "You must be 21 or older to register"@,
            self is SelfExclusionActive ==> r@ == "Account is currently self-excluded"@,
            self is ResponsibleGamblingLimit ==> r@ == "Responsible gambling limit reached"@,
            self is SuspiciousActivity ==> r@ == "Suspicious activity detected. Action blocked"@,
            self is SessionExpired ==> r@ == "Session has expired"@,
            self is InvalidCSRFToken ==> r@ == "Invalid security token"@,
            self is TooManyLoginAttempts ==> r@ == "Too many failed login attempts"@,
            self is PasswordTooWeak ==> r@ == "Password does not meet security requirements"@,
            self is EmailAlreadyRegistered ==> r@ == "Email is already registered"@,
            self is InvalidEmailFormat ==> r@ == "Invalid email format"@,
            self is WalletOperation ==> r@ == "Wallet operation failed"@,
            self is InternalServerError ==> r@ == "Internal server error occurred"@,
    {
        match self {
            AppError::Database(_) => "Database operation failed",
            AppError::Validation(_) => "Validation failed",
            AppError::Authentication(_) => "Authentication failed",
            AppError::Authorization(_) => "Access denied",
            AppError::RateLimit => "Too many requests. Please try again later",
            AppError::RateLimitExceeded(_) => "Rate limit exceeded",
            AppError::Internal(_) => "Internal error",
            AppError::AccountLocked => "Account temporarily locked. Please try again later",
            AppError::InsufficientFunds => "Insufficient funds for this operation",
            AppError::BetLimitExceeded => "Bet amount exceeds limit",
            AppError::EventNotFound => "Event not found",
            AppError::BetNotFound => "Bet not found",
            AppError::UserNotFound => "User not found",
            AppError::InvalidBetAmount => "Invalid bet amount",
            AppError::InvalidSelection => "Unknown market or selection",
            AppError::OddsChanged => "Odds have changed since you last viewed them",
            AppError::EventNotAvailable => "This event is no longer available for betting",
            AppError::Encryption(_) => "Encryption error occurred",
            AppError::Configuration(_) => "Server configuration error",
            AppError::AgeVerificationFailed => "You must be 21 or older to register",
            AppError::SelfExclusionActive => "Account is currently self-excluded",
            AppError::ResponsibleGamblingLimit(_) => "Responsible gambling limit reached",
            AppError::SuspiciousActivity => "Suspicious activity detected. Action blocked",
            AppError::SessionExpired => "Session has expired",
            AppError::InvalidCSRFToken => "Invalid security token",
            AppError::TooManyLoginAttempts => "Too many failed login attempts",
            AppError::PasswordTooWeak => "Password does not meet security requirements",
            AppError::EmailAlreadyRegistered => "Email is already registered",
            AppError::InvalidEmailFormat => "Invalid email format",
            AppError::WalletOperation(_) => "Wallet operation failed",
            AppError::InternalServerError => "Internal server error occurred",
        }
    }
}

/// Error type for auxiliary API endpoints.
#[derive(Debug)]
pub enum ApiError {
    BadRequest(String),
    Unauthorized(String),
    InternalServerError(String),
    ServiceUnavailable(String),
}

impl ApiError {
    pub fn status_code(&self) -> (r: u16)
        ensures
            self is BadRequest ==> r == 400,
            self is Unauthorized ==> r == 401,
            self is InternalServerError ==> r == 500,
            self is ServiceUnavailable ==> r == 503,
    {
        match self {
            ApiError::BadRequest(_) => 400,
            ApiError::Unauthorized(_) => 401,
            ApiError::InternalServerError(_) => 500,
            ApiError::ServiceUnavailable(_) => 503,
        }
    }
}

} // verus!
