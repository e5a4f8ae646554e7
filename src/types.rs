use vstd::prelude::*;

verus! {

/// Seconds for which an anti-forgery token issued at login start stays usable.
pub const CSRF_LIFETIME_SECS: u64 = 600;

/// Seconds for which a session stays valid after it is issued.
pub const SESSION_LIFETIME_SECS: u64 = 21600;

/// Number of characters in a session credential.
pub const SESSION_TOKEN_LEN: usize = 24;

/// Coarse error kinds presented at the boundary.
#[derive(Clone, Copy, Debug, PartialEq, Eq, Structural)]
pub enum ApiError {
    /// Missing, unknown or expired credential, or a failed anti-forgery check.
    Unauthorized,
    /// A new identity collides with an existing user's name or email.
    Conflict,
    /// The identity provider could not be reached or answered badly.
    UpstreamFailure,
    /// The record does not exist or belongs to someone else.
    NotFoundOrForbidden,
    /// The record store could not take the write.
    StoreFailure,
}

/// Outcome of redeeming an anti-forgery token that did not succeed.
#[derive(Clone, Copy, Debug, PartialEq, Eq, Structural)]
pub enum CsrfError {
    /// The token was known but its window had passed; it is gone now.
    Expired,
    /// No such token is stored.
    NotFound,
}

/// A registered user.
#[derive(Debug)]
pub struct User {
    pub id: u32,
    pub github_id: u32,
    pub username: String,
    pub email: String,
    pub profile_picture_url: String,
}

impl User {
    pub fn copy(&self) -> (r: User)
        ensures
            r == *self,
    {
        User {
            id: self.id,
            github_id: self.github_id,
            username: self.username.clone(),
            email: self.email.clone(),
            profile_picture_url: self.profile_picture_url.clone(),
        }
    }
}

/// A task record, owned by exactly one user.
#[derive(Debug)]
pub struct TodoItem {
    pub id: u32,
    pub content: String,
    pub done: bool,
    pub user_id: u32,
}

impl TodoItem {
    pub fn copy(&self) -> (r: TodoItem)
        ensures
            r == *self,
    {
        TodoItem {
            id: self.id,
            content: self.content.clone(),
            done: self.done,
            user_id: self.user_id,
        }
    }
}

/// Answer to a login start: where to send the browser.
#[derive(Debug)]
pub struct GitHubInit {
    pub redirect_url: String,
}

/// What the browser hands back after the provider's consent page.
#[derive(Debug)]
pub struct GitHubSucces {
    pub code: String,
    pub csrf_token: String,
}

/// Body of a task creation.
#[derive(Debug)]
pub struct NewTodoItem {
    pub content: String,
}

/// Body of a task update.
#[derive(Debug)]
pub struct UpdateTodoItem {
    pub done: bool,
}

/// The provider's user profile, as far as this service reads it.
#[derive(Debug)]
pub struct GitHubUser {
    pub id: u32,
    pub login: String,
    pub avatar_url: String,
}

/// One entry of the provider's email list.
#[derive(Debug)]
pub struct GitHubEmail {
    pub email: String,
    pub primary: bool,
}

} // verus!
