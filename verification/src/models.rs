//! The request and response shapes of the surrounding API surface.
//!
//! Plain data the HTTP layer moves in and out of the core: timestamps are
//! seconds, monetary values are exact `Amount`s, and identifiers are the
//! core's 128-bit ids rendered as strings where the wire format wants
//! text.

use vstd::prelude::*;

use crate::amount::Amount;

verus! {

pub struct LoginRequest {
    pub email: String,
    pub password: String,
    pub remember_me: Option<bool>,
}

pub struct UpdateUserRequest {
    pub first_name: Option<String>,
    pub last_name: Option<String>,
    pub phone: Option<String>,
    pub address: Option<String>,
}

pub struct UpdateProfileRequest {
    pub first_name: Option<String>,
    pub last_name: Option<String>,
    pub phone: Option<String>,
    pub address: Option<String>,
}

pub struct ChangePasswordRequest {
    pub current_password: String,
    pub new_password: String,
}

/// The authenticated-subject claims an upstream auth layer hands over.
pub struct Claims {
    pub sub: String,
    pub email: String,
    pub exp: usize,
    pub iat: usize,
    pub iss: String,
    pub aud: String,
    pub session_id: String,
    pub role: String,
}

pub struct PaginationMeta {
    pub page: u32,
    pub per_page: u32,
    pub total: u64,
    pub total_pages: u32,
    pub has_next: bool,
    pub has_prev: bool,
}

pub struct DatabaseHealth {
    pub status: String,
    pub connection_pool_size: u32,
    pub active_connections: u32,
    pub idle_connections: u32,
}

pub struct SelfExcludeRequest {
    pub duration_days: i64,
}

pub struct SettleBetRequest {
    pub status: String,
}

pub struct AdminLog {
    pub id: String,
    pub admin_email: String,
    pub action: String,
    pub target_type: Option<String>,
    pub target_id: Option<String>,
    pub created_at: String,
}

pub struct ListUsersQuery {
    pub page: Option<i64>,
    pub limit: Option<i64>,
    pub status: Option<String>,
    pub role: Option<String>,
    pub verified: Option<bool>,
    pub search: Option<String>,
    pub sort_by: Option<String>,
    pub sort_order: Option<String>,
}

pub struct UpdateUserStatusRequest {
    pub is_active: bool,
    pub reason: Option<String>,
}

pub struct EventQuery {
    pub sport: Option<String>,
    pub league: Option<String>,
    pub status: Option<String>,
}

pub struct ChatRequest {
    pub prompt: String,
}

pub struct ErrorResponse {
    pub error: String,
    pub message: String,
}

pub struct SportsResponse {
    pub sports: Vec<SportInfo>,
    pub total_events: i64,
}

pub struct SportInfo {
    pub name: String,
    pub display_name: String,
    pub icon: String,
    pub event_count: i64,
    pub leagues: Vec<LeagueInfo>,
    pub active: bool,
}

pub struct LeagueInfo {
    pub name: String,
    pub sport: String,
    pub event_count: i64,
    pub upcoming_events: i64,
}

pub struct BetCategoriesResponse {
    pub categories: Vec<BetCategory>,
}

pub struct BetCategory {
    pub id: String,
    pub name: String,
    pub description: String,
    pub icon: String,
    pub example: String,
}

/// The per-subject spend caps as the limits screen reads and writes them.
pub struct UpdateLimitsRequest {
    pub daily_bet_limit: Option<Amount>,
    pub weekly_bet_limit: Option<Amount>,
    pub monthly_bet_limit: Option<Amount>,
    pub max_single_bet: Option<Amount>,
    pub session_time_limit: Option<i32>,
}

} // verus!
