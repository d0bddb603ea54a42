use vstd::prelude::*;

verus! {

/// A stored link. `created_at` is in microseconds since the Unix epoch, UTC.
#[derive(Debug)]
pub struct Link {
    pub id: i32,
    pub user_id: Option<i32>,
    pub original_url: String,
    pub short_code: String,
    pub created_at: i64,
    pub clicks: i64,
}

/// A request to shorten `url`, optionally under a chosen code and with an
/// initial click source.
#[derive(Debug)]
pub struct CreateLink {
    pub url: String,
    pub source: Option<String>,
    pub custom_code: Option<String>,
}

/// The identity that the authentication gate vouches for.
#[derive(Debug)]
pub struct AuthenticatedUser {
    pub user_id: i32,
}

#[derive(Debug)]
pub struct LoginRequest {
    pub email: String,
    pub password: String,
}

#[derive(Debug)]
pub struct RegisterRequest {
    pub email: String,
    pub password: String,
    pub admin_token: Option<String>,
}

#[derive(Debug)]
pub struct UserResponse {
    pub id: i32,
    pub email: String,
}

#[derive(Debug)]
pub struct AuthResponse {
    pub token: String,
    pub user: UserResponse,
}

#[derive(Debug)]
pub struct User {
    pub id: i32,
    pub email: String,
    pub password_hash: String,
}

} // verus!
