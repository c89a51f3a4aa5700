//! The messages exchanged between the race client and the race hub.
//! Their JSON form is produced outside this crate; here they are plain data.
use vstd::prelude::*;

verus! {

/// Version of the hub's HTTP API.
pub const API_VERSION: &'static str = "v1";

/// The body of a failed request.
#[derive(Debug, Clone)]
pub struct ErrorResponse {
    pub error: String,
}

/// A registered user.
#[derive(Debug, Clone)]
pub struct UserInfo {
    pub id: i64,
    pub username: String,
}

/// A request to create an account.
#[derive(Debug, Clone)]
pub struct RegisterRequest {
    pub username: String,
    pub password: String,
}

/// A request to open a session.
#[derive(Debug, Clone)]
pub struct LoginRequest {
    pub username: String,
    pub password: String,
}

/// An opened session: its token and its user.
#[derive(Debug, Clone)]
pub struct LoginResponse {
    pub token: String,
    pub user: UserInfo,
}

/// What a hub offers: whether it requires authentication, its mode name,
/// and whether it accepts registrations.
#[derive(Debug, Clone)]
pub struct ServerCapabilities {
    pub auth_required: bool,
    pub mode: String,
    pub registration_enabled: bool,
}

/// Value of [`ServerCapabilities::registration_enabled`] when a message
/// leaves it out: registrations are accepted.
pub fn default_registration_enabled() -> (r: bool)
    ensures
        r,
{
    true
}

/// An uploaded bot program as listed for a user.
#[derive(Debug, Clone)]
pub struct ArtifactSummary {
    pub id: i64,
    pub owner_user_id: i64,
    pub owner_username: String,
    pub name: String,
    pub note: Option<String>,
    pub target: String,
    pub is_public: bool,
    pub owned_by_me: bool,
    pub created_at: String,
}

/// An upload of a bot program, its ELF file in base64.
#[derive(Debug, Clone)]
pub struct UploadArtifactRequest {
    pub name: String,
    pub note: Option<String>,
    pub target: String,
    pub elf_base64: String,
}

/// The id given to an uploaded program.
#[derive(Debug, Clone)]
pub struct UploadArtifactResponse {
    pub artifact_id: i64,
}

/// A change of an uploaded program's visibility.
#[derive(Debug, Clone)]
pub struct UpdateArtifactVisibilityRequest {
    pub is_public: bool,
}

} // verus!
