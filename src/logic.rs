//! The service's operations: the login flow, sessions, identity resolution and
//! the owner-scoped task operations, all over one record store.
use vstd::prelude::*;

use crate::database::{
    csrf_outcome, github_known, identity_taken, owned_items, owns, session_outcome,
    session_purge, with_done, Database,
};
use crate::github::{
    authorize_url, authorize_url_of, endpoints_parse, is_alphanumeric, primary_email, random_alphanumeric,
    random_csrf_value, select_primary_email, OAuthConfig,
};
use crate::types::{
    ApiError, GitHubEmail, GitHubUser, TodoItem, User, CSRF_LIFETIME_SECS,
    SESSION_LIFETIME_SECS, SESSION_TOKEN_LEN,
};

verus! {

/// The id of the user who came from provider id `gid`.
pub open spec fn github_user_id(users: Seq<User>, gid: u32) -> u32 {
    users[choose|i: int| 0 <= i < users.len() && #[trigger] users[i].github_id == gid].id
}

/// What resolving provider id `gid` with this name and email answers.
pub open spec fn resolve_outcome(
    users: Seq<User>,
    gid: u32,
    username: Seq<char>,
    email: Seq<char>,
) -> Result<u32, ApiError> {
    if github_known(users, gid) {
        Ok(github_user_id(users, gid))
    } else if identity_taken(users, username, email) {
        Err(ApiError::Conflict)
    } else if users.len() + 1 >= u32::MAX {
        Err(ApiError::StoreFailure)
    } else {
        Ok((users.len() + 1) as u32)
    }
}

/// How resolving changes the users: a new identity that resolves is appended
/// with exactly the supplied fields; otherwise nothing changes.
pub open spec fn resolve_effect(
    users: Seq<User>,
    after: Seq<User>,
    gid: u32,
    username: Seq<char>,
    email: Seq<char>,
    avatar: Seq<char>,
) -> bool {
    if !github_known(users, gid) && resolve_outcome(users, gid, username, email) is Ok {
        &&& after.len() == users.len() + 1
        &&& after.drop_last() == users
        &&& after.last().id == users.len() + 1
        &&& after.last().github_id == gid
        &&& after.last().username@ == username
        &&& after.last().email@ == email
        &&& after.last().profile_picture_url@ == avatar
    } else {
        after == users
    }
}

/// What a credential check answers for this lookup result.
pub open spec fn validate_result(o: Option<u32>) -> Result<u32, ApiError> {
    match o {
        Some(u) => Ok(u),
        None => Err(ApiError::Unauthorized),
    }
}

/// Neither anti-forgery tokens, users nor tasks differ between `a` and `b`.
pub open spec fn only_sessions_differ(a: Database, b: Database) -> bool {
    &&& a.csrf_view() == b.csrf_view()
    &&& a.users_view() == b.users_view()
    &&& a.items_view() == b.items_view()
    &&& a.next_item_id() == b.next_item_id()
}

/// Only the tasks may differ between `a` and `b`.
pub open spec fn only_items_differ(a: Database, b: Database) -> bool {
    &&& a.csrf_view() == b.csrf_view()
    &&& a.session_view() == b.session_view()
    &&& a.users_view() == b.users_view()
}

/// Proof that a login's `state` value was stored, unexpired, and has now been
/// spent. Only `Logic::github_check_state` makes one, and finishing a login
/// takes it by value.
pub struct RedeemedState {
    value: String,
}

impl RedeemedState {
    /// The redeemed value.
    pub closed spec fn value(&self) -> Seq<char> {
        self.value@
    }
}

pub struct Logic {
    database: Database,
}

impl Logic {
    pub closed spec fn db(&self) -> Database {
        self.database
    }

    pub open spec fn wf(&self) -> bool {
        self.db().wf()
    }

    pub fn new(database: Database) -> (r: Logic)
        requires
            database.wf(),
        ensures
            r.wf(),
            r.db() == database,
    {
        Logic { database }
    }

    pub fn user_count(&self) -> (r: u32)
        requires
            self.wf(),
        ensures
            r == self.db().users_view().len(),
    {
        self.database.user_count()
    }

    /// Checks a session credential at time `now` and gives its user. An expired
    /// session is purged by the check.
    pub fn validate(&mut self, session: &String, now: u64) -> (r: Result<u32, ApiError>)
        requires
            old(self).wf(),
        ensures
            final(self).wf(),
            r == validate_result(session_outcome(old(self).db().session_view(), session@, now)),
            final(self).db().session_view() == session_purge(
                old(self).db().session_view(),
                session@,
                now,
            ),
            final(self).db().csrf_view() == old(self).db().csrf_view(),
            final(self).db().users_view() == old(self).db().users_view(),
            final(self).db().items_view() == old(self).db().items_view(),
            final(self).db().next_item_id() == old(self).db().next_item_id(),
    {
        self.database.get_session(session, now)
    }

    pub fn get_user(&self, user_id: u32) -> (r: Result<User, ApiError>)
        requires
            self.wf(),
        ensures
            1 <= user_id <= self.db().users_view().len() ==> r == Ok::<User, ApiError>(
                self.db().users_view()[user_id - 1],
            ),
            !(1 <= user_id <= self.db().users_view().len()) ==> r == Err::<User, ApiError>(
                ApiError::NotFoundOrForbidden,
            ),
    {
        self.database.get_user(user_id)
    }

    /// The profile of the user behind a session credential.
    pub fn whoami(&mut self, session: &String, now: u64) -> (r: Result<User, ApiError>)
        requires
            old(self).wf(),
        ensures
            final(self).wf(),
            ({
                let users = old(self).db().users_view();
                match session_outcome(old(self).db().session_view(), session@, now) {
                    Some(u) => if 1 <= u <= users.len() {
                        r == Ok::<User, ApiError>(users[u - 1])
                    } else {
                        r == Err::<User, ApiError>(ApiError::Unauthorized)
                    },
                    None => r == Err::<User, ApiError>(ApiError::Unauthorized),
                }
            }),
            final(self).db().session_view() == session_purge(
                old(self).db().session_view(),
                session@,
                now,
            ),
            only_sessions_differ(final(self).db(), old(self).db()),
    {
        match self.database.get_session(session, now) {
            Ok(user_id) => match self.database.get_user(user_id) {
                Ok(user) => Ok(user),
                Err(_) => Err(ApiError::Unauthorized),
            },
            Err(e) => Err(e),
        }
    }

    /// Starts a login whose provider URL has been built: stores `state` for
    /// `CSRF_LIFETIME_SECS` and gives the URL back. `None` means the URL could not
    /// be built; nothing is stored then, nor when `state` is already stored.
    pub fn github_init_with_url(&mut self, state: String, url: Option<String>, now: u64) -> (r:
        Result<String, ApiError>)
        requires
            old(self).wf(),
            now <= u64::MAX - CSRF_LIFETIME_SECS,
        ensures
            final(self).wf(),
            ({
                let tokens = old(self).db().csrf_view();
                match url {
                    None => r == Err::<String, ApiError>(ApiError::UpstreamFailure)
                        && final(self).db().csrf_view() == tokens,
                    Some(u) => if tokens.contains_key(state@) {
                        r == Err::<String, ApiError>(ApiError::StoreFailure)
                            && final(self).db().csrf_view() == tokens
                    } else {
                        r == Ok::<String, ApiError>(u) && final(self).db().csrf_view()
                            == tokens.insert(state@, (now + CSRF_LIFETIME_SECS) as u64)
                    },
                }
            }),
            final(self).db().session_view() == old(self).db().session_view(),
            final(self).db().users_view() == old(self).db().users_view(),
            final(self).db().items_view() == old(self).db().items_view(),
            final(self).db().next_item_id() == old(self).db().next_item_id(),
    {
        let url = match url {
            Some(url) => url,
            None => return Err(ApiError::UpstreamFailure),
        };
        match self.database.add_csrf_token(state, now) {
            Ok(()) => Ok(url),
            Err(e) => Err(e),
        }
    }

    /// Starts a login with `state` as its anti-forgery value: builds the provider
    /// URL that carries it, then stores it as `github_init_with_url` does.
    pub fn github_init_with_state(&mut self, config: &OAuthConfig, state: String, now: u64) -> (r:
        Result<String, ApiError>)
        requires
            old(self).wf(),
            now <= u64::MAX - CSRF_LIFETIME_SECS,
        ensures
            final(self).wf(),
            ({
                let tokens = old(self).db().csrf_view();
                if !endpoints_parse(config.auth_url@, config.redirect_url@) {
                    r == Err::<String, ApiError>(ApiError::UpstreamFailure)
                        && final(self).db().csrf_view() == tokens
                } else if tokens.contains_key(state@) {
                    r == Err::<String, ApiError>(ApiError::StoreFailure)
                        && final(self).db().csrf_view() == tokens
                } else {
                    &&& r is Ok
                    &&& r->Ok_0@ == authorize_url_of(
                        config.client_id@,
                        config.auth_url@,
                        config.redirect_url@,
                        config.scopes_view(),
                        state@,
                    )
                    &&& final(self).db().csrf_view() == tokens.insert(
                        state@,
                        (now + CSRF_LIFETIME_SECS) as u64,
                    )
                }
            }),
            final(self).db().session_view() == old(self).db().session_view(),
            final(self).db().users_view() == old(self).db().users_view(),
            final(self).db().items_view() == old(self).db().items_view(),
            final(self).db().next_item_id() == old(self).db().next_item_id(),
    {
        let url = authorize_url(config, &state);
        self.github_init_with_url(state, url, now)
    }

    /// Starts a login with a fresh random anti-forgery value.
    pub fn github_init(&mut self, config: &OAuthConfig, now: u64) -> (r: Result<String, ApiError>)
        requires
            old(self).wf(),
            now <= u64::MAX - CSRF_LIFETIME_SECS,
        ensures
            final(self).wf(),
            endpoints_parse(config.auth_url@, config.redirect_url@) && old(self).db().csrf_view()
                == Map::<Seq<char>, u64>::empty() ==> r is Ok,
            endpoints_parse(config.auth_url@, config.redirect_url@) ==> (r is Ok || r == Err::<
                String,
                ApiError,
            >(ApiError::StoreFailure)),
            !endpoints_parse(config.auth_url@, config.redirect_url@) ==> r == Err::<
                String,
                ApiError,
            >(ApiError::UpstreamFailure),
            r matches Ok(url) ==> exists|state: Seq<char>|
                {
                    &&& !old(self).db().csrf_view().contains_key(state)
                    &&& url@ == #[trigger] authorize_url_of(
                        config.client_id@,
                        config.auth_url@,
                        config.redirect_url@,
                        config.scopes_view(),
                        state,
                    )
                    &&& final(self).db().csrf_view() == old(self).db().csrf_view().insert(
                        state,
                        (now + CSRF_LIFETIME_SECS) as u64,
                    )
                },
            r is Err ==> final(self).db().csrf_view() == old(self).db().csrf_view(),
            final(self).db().session_view() == old(self).db().session_view(),
            final(self).db().users_view() == old(self).db().users_view(),
            final(self).db().items_view() == old(self).db().items_view(),
            final(self).db().next_item_id() == old(self).db().next_item_id(),
    {
        let state = random_csrf_value();
        self.github_init_with_state(config, state, now)
    }

    /// Redeems the `state` value that the provider sent back. The value is
    /// spent whatever the answer; only a stored, unexpired value passes, and
    /// only then is there a `RedeemedState` to finish the login with.
    pub fn github_check_state(&mut self, csrf_token: &String, now: u64) -> (r: Result<
        RedeemedState,
        ApiError,
    >)
        requires
            old(self).wf(),
        ensures
            final(self).wf(),
            r is Ok <==> csrf_outcome(old(self).db().csrf_view(), csrf_token@, now) is Ok,
            r matches Ok(p) ==> p.value() == csrf_token@,
            r is Err ==> r == Err::<RedeemedState, ApiError>(ApiError::Unauthorized),
            final(self).db().csrf_view() == old(self).db().csrf_view().remove(csrf_token@),
            final(self).db().session_view() == old(self).db().session_view(),
            final(self).db().users_view() == old(self).db().users_view(),
            final(self).db().items_view() == old(self).db().items_view(),
            final(self).db().next_item_id() == old(self).db().next_item_id(),
    {
        match self.database.get_csrf_token(csrf_token, now) {
            Ok(()) => Ok(RedeemedState { value: csrf_token.clone() }),
            Err(_) => Err(ApiError::Unauthorized),
        }
    }

    /// Maps a provider identity to a user: a known provider id gives its user
    /// unchanged, a new one creates a user with the supplied fields.
    pub fn resolve_identity(
        &mut self,
        github_id: u32,
        username: String,
        email: String,
        profile_picture_url: String,
    ) -> (r: Result<u32, ApiError>)
        requires
            old(self).wf(),
        ensures
            final(self).wf(),
            r == resolve_outcome(old(self).db().users_view(), github_id, username@, email@),
            resolve_effect(
                old(self).db().users_view(),
                final(self).db().users_view(),
                github_id,
                username@,
                email@,
                profile_picture_url@,
            ),
            final(self).db().csrf_view() == old(self).db().csrf_view(),
            final(self).db().session_view() == old(self).db().session_view(),
            final(self).db().items_view() == old(self).db().items_view(),
            final(self).db().next_item_id() == old(self).db().next_item_id(),
    {
        proof {
            self.database.lemma_wf();
        }
        match self.database.get_user_by_github_id(github_id) {
            Ok(user) => {
                proof {
                    let users = self.database.users_view();
                    let k = choose|k: int| 0 <= k < users.len() && users[k] == user;
                    let i = choose|i: int|
                        0 <= i < users.len() && #[trigger] users[i].github_id == github_id;
                    assert(users[k].github_id == users[i].github_id);
                }
                Ok(user.id)
            },
            Err(_) => {
                let ghost u = self.database.users_view();
                let r = self.database.add_user(github_id, username, email, profile_picture_url);
                proof {
                    if r is Ok {
                        assert(self.database.users_view().drop_last() =~= u);
                    }
                }
                r
            },
        }
    }

    /// Stores `session` as a credential of `user_id` that expires
    /// `SESSION_LIFETIME_SECS` after `now`, and gives it back.
    pub fn issue_session_with(&mut self, user_id: u32, session: String, now: u64) -> (r: Result<
        String,
        ApiError,
    >)
        requires
            old(self).wf(),
            now <= u64::MAX - SESSION_LIFETIME_SECS,
        ensures
            final(self).wf(),
            r is Err <==> old(self).db().session_view().contains_key(session@),
            r matches Ok(t) ==> t == session && final(self).db().session_view() == old(
                self,
            ).db().session_view().insert(session@, (user_id, (now + SESSION_LIFETIME_SECS) as u64)),
            r matches Err(e) ==> e == ApiError::StoreFailure && final(self).db().session_view()
                == old(self).db().session_view(),
            only_sessions_differ(final(self).db(), old(self).db()),
    {
        match self.database.add_session(user_id, session.clone(), now + SESSION_LIFETIME_SECS) {
            Ok(()) => Ok(session),
            Err(e) => Err(e),
        }
    }

    /// Issues a fresh random credential of `SESSION_TOKEN_LEN` letters and digits.
    pub fn issue_session(&mut self, user_id: u32, now: u64) -> (r: Result<String, ApiError>)
        requires
            old(self).wf(),
            now <= u64::MAX - SESSION_LIFETIME_SECS,
        ensures
            final(self).wf(),
            old(self).db().session_view() == Map::<Seq<char>, (u32, u64)>::empty() ==> r is Ok,
            r matches Ok(t) ==> {
                &&& t@.len() == SESSION_TOKEN_LEN
                &&& forall|i: int| 0 <= i < t@.len() ==> is_alphanumeric(#[trigger] t@[i])
                &&& !old(self).db().session_view().contains_key(t@)
                &&& final(self).db().session_view() == old(self).db().session_view().insert(
                    t@,
                    (user_id, (now + SESSION_LIFETIME_SECS) as u64),
                )
            },
            r matches Err(e) ==> e == ApiError::StoreFailure && final(self).db().session_view()
                == old(self).db().session_view(),
            only_sessions_differ(final(self).db(), old(self).db()),
    {
        let session = random_alphanumeric(SESSION_TOKEN_LEN);
        self.issue_session_with(user_id, session, now)
    }

    /// Finishes a login whose `state` value was redeemed, given what the
    /// provider answered: `None` when the code exchange or a profile fetch
    /// failed, else the profile and the email list. A failed exchange, or an
    /// email list with no primary entry, fails the login and changes nothing;
    /// otherwise the identity is resolved and `session` is stored for that user.
    pub fn github_success_with_session(
        &mut self,
        _redeemed: RedeemedState,
        answer: Option<(GitHubUser, Vec<GitHubEmail>)>,
        session: String,
        now: u64,
    ) -> (r: Result<String, ApiError>)
        requires
            old(self).wf(),
            now <= u64::MAX - SESSION_LIFETIME_SECS,
        ensures
            final(self).wf(),
            ({
                let users = old(self).db().users_view();
                let sessions = old(self).db().session_view();
                match answer {
                    None => r == Err::<String, ApiError>(ApiError::UpstreamFailure)
                        && final(self).db() == old(self).db(),
                    Some(profile) => match primary_email(profile.1@) {
                        None => r == Err::<String, ApiError>(ApiError::UpstreamFailure)
                            && final(self).db() == old(self).db(),
                        Some(email) => {
                            let user = profile.0;
                            &&& resolve_effect(
                                users,
                                final(self).db().users_view(),
                                user.id,
                                user.login@,
                                email,
                                user.avatar_url@,
                            )
                            &&& match resolve_outcome(users, user.id, user.login@, email) {
                                Err(e) => r == Err::<String, ApiError>(e)
                                    && final(self).db().session_view() == sessions,
                                Ok(uid) => if sessions.contains_key(session@) {
                                    r == Err::<String, ApiError>(ApiError::StoreFailure)
                                        && final(self).db().session_view() == sessions
                                } else {
                                    r == Ok::<String, ApiError>(session)
                                        && final(self).db().session_view() == sessions.insert(
                                        session@,
                                        (uid, (now + SESSION_LIFETIME_SECS) as u64),
                                    )
                                },
                            }
                        },
                    },
                }
            }),
            final(self).db().csrf_view() == old(self).db().csrf_view(),
            final(self).db().items_view() == old(self).db().items_view(),
            final(self).db().next_item_id() == old(self).db().next_item_id(),
    {
        let (user, emails) = match answer {
            Some(profile) => profile,
            None => return Err(ApiError::UpstreamFailure),
        };
        let email = match select_primary_email(&emails) {
            Some(email) => email,
            None => return Err(ApiError::UpstreamFailure),
        };
        let user_id = match self.resolve_identity(user.id, user.login, email, user.avatar_url) {
            Ok(id) => id,
            Err(e) => return Err(e),
        };
        self.issue_session_with(user_id, session, now)
    }

    /// Finishes a login as `github_success_with_session` does, with a fresh
    /// random credential of `SESSION_TOKEN_LEN` letters and digits.
    pub fn github_success(
        &mut self,
        _redeemed: RedeemedState,
        answer: Option<(GitHubUser, Vec<GitHubEmail>)>,
        now: u64,
    ) -> (r: Result<String, ApiError>)
        requires
            old(self).wf(),
            now <= u64::MAX - SESSION_LIFETIME_SECS,
        ensures
            final(self).wf(),
            ({
                let users = old(self).db().users_view();
                let sessions = old(self).db().session_view();
                match answer {
                    None => r == Err::<String, ApiError>(ApiError::UpstreamFailure)
                        && final(self).db() == old(self).db(),
                    Some(profile) => match primary_email(profile.1@) {
                        None => r == Err::<String, ApiError>(ApiError::UpstreamFailure)
                            && final(self).db() == old(self).db(),
                        Some(email) => {
                            let user = profile.0;
                            &&& resolve_effect(
                                users,
                                final(self).db().users_view(),
                                user.id,
                                user.login@,
                                email,
                                user.avatar_url@,
                            )
                            &&& match resolve_outcome(users, user.id, user.login@, email) {
                                Err(e) => r == Err::<String, ApiError>(e)
                                    && final(self).db().session_view() == sessions,
                                Ok(uid) => {
                                    &&& sessions == Map::<Seq<char>, (u32, u64)>::empty() ==> r is Ok
                                    &&& match r {
                                        Ok(t) => {
                                            &&& t@.len() == SESSION_TOKEN_LEN
                                            &&& forall|i: int|
                                                0 <= i < t@.len() ==> is_alphanumeric(
                                                    #[trigger] t@[i],
                                                )
                                            &&& !sessions.contains_key(t@)
                                            &&& final(self).db().session_view() == sessions.insert(
                                                t@,
                                                (uid, (now + SESSION_LIFETIME_SECS) as u64),
                                            )
                                        },
                                        Err(e) => e == ApiError::StoreFailure
                                            && final(self).db().session_view() == sessions,
                                    }
                                },
                            }
                        },
                    },
                }
            }),
            final(self).db().csrf_view() == old(self).db().csrf_view(),
            final(self).db().items_view() == old(self).db().items_view(),
            final(self).db().next_item_id() == old(self).db().next_item_id(),
    {
        let session = random_alphanumeric(SESSION_TOKEN_LEN);
        self.github_success_with_session(_redeemed, answer, session, now)
    }

    /// Ends a session. Reports `Unauthorized` when the credential is not stored.
    pub fn logout(&mut self, session: &String) -> (r: Result<(), ApiError>)
        requires
            old(self).wf(),
        ensures
            final(self).wf(),
            r is Ok <==> old(self).db().session_view().contains_key(session@),
            r is Err ==> r == Err::<(), ApiError>(ApiError::Unauthorized),
            final(self).db().session_view() == old(self).db().session_view().remove(session@),
            only_sessions_differ(final(self).db(), old(self).db()),
    {
        self.database.delete_session(session)
    }

    /// The tasks of `user_id`.
    pub fn get_items(&self, user_id: u32) -> (r: Vec<TodoItem>)
        requires
            self.wf(),
        ensures
            r@ == owned_items(self.db().items_view(), user_id),
    {
        self.database.get_todo_items(user_id)
    }

    /// Creates a task of `user_id` that is not done, and gives its id.
    pub fn add_item(&mut self, user_id: u32, content: String) -> (r: Result<u32, ApiError>)
        requires
            old(self).wf(),
        ensures
            final(self).wf(),
            ({
                let next = old(self).db().next_item_id();
                let items = old(self).db().items_view();
                if next == u32::MAX {
                    r == Err::<u32, ApiError>(ApiError::StoreFailure) && final(self).db().items_view()
                        == items
                } else {
                    &&& r == Ok::<u32, ApiError>(next)
                    &&& final(self).db().items_view() == items.push(
                        TodoItem { id: next, content, done: false, user_id },
                    )
                }
            }),
            only_items_differ(final(self).db(), old(self).db()),
    {
        self.database.add_todo_item(user_id, content)
    }

    /// Sets the state of task `item_id` when `user_id` owns it; another user's
    /// task answers as a missing one and stays as it was.
    pub fn update_item(&mut self, user_id: u32, item_id: u32, done: bool) -> (r: Result<
        (),
        ApiError,
    >)
        requires
            old(self).wf(),
        ensures
            final(self).wf(),
            r is Ok <==> owns(old(self).db().items_view(), user_id, item_id),
            r is Err ==> r == Err::<(), ApiError>(ApiError::NotFoundOrForbidden),
            final(self).db().items_view() == with_done(
                old(self).db().items_view(),
                user_id,
                item_id,
                done,
            ),
            final(self).db().next_item_id() == old(self).db().next_item_id(),
            only_items_differ(final(self).db(), old(self).db()),
    {
        self.database.update_todo_item(user_id, item_id, done)
    }

    /// Deletes task `item_id` when `user_id` owns it; another user's task
    /// answers as a missing one and stays.
    pub fn delete_item(&mut self, user_id: u32, item_id: u32) -> (r: Result<(), ApiError>)
        requires
            old(self).wf(),
        ensures
            final(self).wf(),
            r is Ok <==> owns(old(self).db().items_view(), user_id, item_id),
            r is Ok ==> exists|i: int|
                0 <= i < old(self).db().items_view().len() && #[trigger] old(
                    self,
                ).db().items_view()[i].id == item_id && final(self).db().items_view() == old(
                    self,
                ).db().items_view().remove(i),
            r is Err ==> r == Err::<(), ApiError>(ApiError::NotFoundOrForbidden)
                && final(self).db().items_view() == old(self).db().items_view(),
            final(self).db().next_item_id() == old(self).db().next_item_id(),
            only_items_differ(final(self).db(), old(self).db()),
    {
        self.database.delete_todo_item(user_id, item_id)
    }

    /// The caller's tasks, for a live credential.
    pub fn list_items(&mut self, session: &String, now: u64) -> (r: Result<Vec<TodoItem>, ApiError>)
        requires
            old(self).wf(),
        ensures
            final(self).wf(),
            match session_outcome(old(self).db().session_view(), session@, now) {
                Some(u) => r matches Ok(v) && v@ == owned_items(old(self).db().items_view(), u),
                None => r == Err::<Vec<TodoItem>, ApiError>(ApiError::Unauthorized),
            },
            final(self).db().session_view() == session_purge(
                old(self).db().session_view(),
                session@,
                now,
            ),
            only_sessions_differ(final(self).db(), old(self).db()),
    {
        match self.validate(session, now) {
            Ok(user_id) => Ok(self.get_items(user_id)),
            Err(e) => Err(e),
        }
    }

    /// Creates a task for the caller of a live credential.
    pub fn create_item(&mut self, session: &String, content: String, now: u64) -> (r: Result<
        u32,
        ApiError,
    >)
        requires
            old(self).wf(),
        ensures
            final(self).wf(),
            ({
                let next = old(self).db().next_item_id();
                let items = old(self).db().items_view();
                match session_outcome(old(self).db().session_view(), session@, now) {
                    Some(u) => if next == u32::MAX {
                        r == Err::<u32, ApiError>(ApiError::StoreFailure)
                            && final(self).db().items_view() == items
                    } else {
                        &&& r == Ok::<u32, ApiError>(next)
                        &&& final(self).db().items_view() == items.push(
                            TodoItem { id: next, content, done: false, user_id: u },
                        )
                    },
                    None => r == Err::<u32, ApiError>(ApiError::Unauthorized)
                        && final(self).db().items_view() == items
                        && final(self).db().next_item_id() == next,
                }
            }),
            final(self).db().session_view() == session_purge(
                old(self).db().session_view(),
                session@,
                now,
            ),
            final(self).db().csrf_view() == old(self).db().csrf_view(),
            final(self).db().users_view() == old(self).db().users_view(),
    {
        match self.validate(session, now) {
            Ok(user_id) => self.add_item(user_id, content),
            Err(e) => Err(e),
        }
    }

    /// Sets the state of one of the caller's tasks, for a live credential.
    pub fn update_session_item(&mut self, session: &String, item_id: u32, done: bool, now: u64) -> (r:
        Result<(), ApiError>)
        requires
            old(self).wf(),
        ensures
            final(self).wf(),
            ({
                let items = old(self).db().items_view();
                match session_outcome(old(self).db().session_view(), session@, now) {
                    Some(u) => {
                        &&& r is Ok <==> owns(items, u, item_id)
                        &&& r is Err ==> r == Err::<(), ApiError>(ApiError::NotFoundOrForbidden)
                        &&& final(self).db().items_view() == with_done(items, u, item_id, done)
                    },
                    None => r == Err::<(), ApiError>(ApiError::Unauthorized)
                        && final(self).db().items_view() == items,
                }
            }),
            final(self).db().session_view() == session_purge(
                old(self).db().session_view(),
                session@,
                now,
            ),
            final(self).db().next_item_id() == old(self).db().next_item_id(),
            final(self).db().csrf_view() == old(self).db().csrf_view(),
            final(self).db().users_view() == old(self).db().users_view(),
    {
        match self.validate(session, now) {
            Ok(user_id) => self.update_item(user_id, item_id, done),
            Err(e) => Err(e),
        }
    }

    /// Deletes one of the caller's tasks, for a live credential.
    pub fn delete_session_item(&mut self, session: &String, item_id: u32, now: u64) -> (r: Result<
        (),
        ApiError,
    >)
        requires
            old(self).wf(),
        ensures
            final(self).wf(),
            ({
                let items = old(self).db().items_view();
                match session_outcome(old(self).db().session_view(), session@, now) {
                    Some(u) => {
                        &&& r is Ok <==> owns(items, u, item_id)
                        &&& r is Ok ==> exists|i: int|
                            0 <= i < items.len() && #[trigger] items[i].id == item_id
                                && final(self).db().items_view() == items.remove(i)
                        &&& r is Err ==> r == Err::<(), ApiError>(ApiError::NotFoundOrForbidden)
                            && final(self).db().items_view() == items
                    },
                    None => r == Err::<(), ApiError>(ApiError::Unauthorized)
                        && final(self).db().items_view() == items,
                }
            }),
            final(self).db().session_view() == session_purge(
                old(self).db().session_view(),
                session@,
                now,
            ),
            final(self).db().next_item_id() == old(self).db().next_item_id(),
            final(self).db().csrf_view() == old(self).db().csrf_view(),
            final(self).db().users_view() == old(self).db().users_view(),
    {
        match self.validate(session, now) {
            Ok(user_id) => self.delete_item(user_id, item_id),
            Err(e) => Err(e),
        }
    }
}

} // verus!
