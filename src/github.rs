//! The identity provider's side of the login: the authorization URL, the random
//! values minted for a login, and the normalisation of the provider's profile.
use vstd::prelude::*;

use oauth2::basic::BasicClient;
use oauth2::{AuthUrl, ClientId, CsrfToken, RedirectUrl, Scope};
use rand::distr::Alphanumeric;
use rand::Rng;

use crate::types::GitHubEmail;

verus! {

/// The provider settings, built once at start-up and handed to each login.
pub struct OAuthConfig {
    pub client_id: String,
    pub client_secret: String,
    pub auth_url: String,
    pub token_url: String,
    pub redirect_url: String,
    pub scopes: Vec<String>,
}

impl OAuthConfig {
    /// The requested scopes, as text.
    pub open spec fn scopes_view(&self) -> Seq<Seq<char>> {
        self.scopes@.map_values(|s: String| s@)
    }
}

/// The characters of a session credential.
pub open spec fn is_alphanumeric(c: char) -> bool {
    ('a' <= c <= 'z') || ('A' <= c <= 'Z') || ('0' <= c <= '9')
}

/// The authorization URL that oauth2 builds for a client id, an authorization
/// endpoint, a redirect target, the requested scopes and a `state` value.
pub uninterp spec fn authorize_url_of(
    client_id: Seq<char>,
    auth_url: Seq<char>,
    redirect_url: Seq<char>,
    scopes: Seq<Seq<char>>,
    state: Seq<char>,
) -> Seq<char>;

/// Whether both endpoints parse as URLs.
pub uninterp spec fn endpoints_parse(auth_url: Seq<char>, redirect_url: Seq<char>) -> bool;

/// Relies on oauth2's `AuthUrl::new`, `RedirectUrl::new` and
/// `BasicClient::authorize_url(..).url()`: `None` when an endpoint does not parse,
/// else the URL that carries `state` as its `state` query parameter.
#[verifier::external_body]
pub(crate) fn authorize_url(config: &OAuthConfig, state: &String) -> (r: Option<String>)
    ensures
        r is Some <==> endpoints_parse(config.auth_url@, config.redirect_url@),
        r matches Some(u) ==> u@ == authorize_url_of(
            config.client_id@,
            config.auth_url@,
            config.redirect_url@,
            config.scopes_view(),
            state@,
        ),
{
    let (Ok(auth), Ok(redirect)) = (
        AuthUrl::new(config.auth_url.clone()),
        RedirectUrl::new(config.redirect_url.clone()),
    ) else {
        return None;
    };
    let client = BasicClient::new(ClientId::new(config.client_id.clone()))
        .set_auth_uri(auth)
        .set_redirect_uri(redirect);
    let mut request = client.authorize_url(|| CsrfToken::new(state.clone()));
    for scope in config.scopes.iter() {
        request = request.add_scope(Scope::new(scope.clone()));
    }
    Some(request.url().0.to_string())
}

/// Relies on oauth2's `CsrfToken::new_random`: a fresh random value for a login's
/// `state` parameter. Nothing is promised of its content.
#[verifier::external_body]
pub(crate) fn random_csrf_value() -> (r: String) {
    CsrfToken::new_random().into_secret()
}

/// Relies on rand's `Alphanumeric` distribution drawn from `rand::rng()`: `len`
/// characters, each an ASCII letter or digit.
#[verifier::external_body]
pub(crate) fn random_alphanumeric(len: usize) -> (r: String)
    ensures
        r@.len() == len,
        forall|i: int| 0 <= i < r@.len() ==> is_alphanumeric(#[trigger] r@[i]),
{
    rand::rng().sample_iter(&Alphanumeric).take(len).map(char::from).collect()
}

/// The email of the first entry marked primary, if any entry is.
pub open spec fn primary_email(emails: Seq<GitHubEmail>) -> Option<Seq<char>>
    decreases emails.len(),
{
    if emails.len() == 0 {
        None
    } else if emails[0].primary {
        Some(emails[0].email@)
    } else {
        primary_email(emails.drop_first())
    }
}

/// Picks the email to register from the provider's email list; `None` when no
/// entry is marked primary.
pub fn select_primary_email(emails: &Vec<GitHubEmail>) -> (r: Option<String>)
    ensures
        match r {
            Some(e) => primary_email(emails@) == Some(e@),
            None => primary_email(emails@) is None,
        },
{
    let mut i: usize = 0;
    assert(emails@.subrange(0, emails@.len() as int) =~= emails@);
    while i < emails.len()
        invariant
            i <= emails@.len(),
            primary_email(emails@) == primary_email(emails@.subrange(i as int, emails@.len() as int)),
        decreases emails@.len() - i,
    {
        let ghost rest = emails@.subrange(i as int, emails@.len() as int);
        if emails[i].primary {
            return Some(emails[i].email.clone());
        }
        assert(rest.drop_first() =~= emails@.subrange(i + 1, emails@.len() as int));
        i += 1;
    }
    None
}

} // verus!
