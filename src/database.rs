//! The record store: users, sessions, anti-forgery tokens and task records.
use vstd::prelude::*;

use crate::keyed::{
    has_key, keyed_map, lemma_keyed_absent, lemma_keyed_index, lemma_keyed_push,
    lemma_keyed_remove, unique_keys,
};
use crate::types::{ApiError, CsrfError, TodoItem, User};

verus! {

struct CsrfRecord {
    value: String,
    expires: u64,
}

struct SessionRecord {
    user_id: u32,
    session: String,
    expires: u64,
}

spec fn csrf_rows(s: Seq<CsrfRecord>) -> Seq<(Seq<char>, u64)> {
    s.map_values(|r: CsrfRecord| (r.value@, r.expires))
}

spec fn session_rows(s: Seq<SessionRecord>) -> Seq<(Seq<char>, (u32, u64))> {
    s.map_values(|r: SessionRecord| (r.session@, (r.user_id, r.expires)))
}

/// What redeeming token `v` at time `now` reports, given the stored tokens `m`.
pub open spec fn csrf_outcome(m: Map<Seq<char>, u64>, v: Seq<char>, now: u64) -> Result<
    (),
    CsrfError,
> {
    if !m.contains_key(v) {
        Err(CsrfError::NotFound)
    } else if m[v] < now {
        Err(CsrfError::Expired)
    } else {
        Ok(())
    }
}

/// The user that session `t` stands for at time `now`, if it is live.
pub open spec fn session_outcome(m: Map<Seq<char>, (u32, u64)>, t: Seq<char>, now: u64) -> Option<
    u32,
> {
    if m.contains_key(t) && now <= m[t].1 {
        Some(m[t].0)
    } else {
        None
    }
}

/// The sessions left after looking up `t` at time `now`: an expired one is purged.
pub open spec fn session_purge(m: Map<Seq<char>, (u32, u64)>, t: Seq<char>, now: u64) -> Map<
    Seq<char>,
    (u32, u64),
> {
    if m.contains_key(t) && m[t].1 < now {
        m.remove(t)
    } else {
        m
    }
}

/// Users are numbered from one in order of creation, and no two share a
/// provider id, a name or an email.
pub open spec fn users_wf(s: Seq<User>) -> bool {
    &&& s.len() < u32::MAX
    &&& forall|i: int| 0 <= i < s.len() ==> #[trigger] s[i].id == i + 1
    &&& forall|i: int, j: int|
        0 <= i < s.len() && 0 <= j < s.len() && i != j ==> {
            &&& #[trigger] s[i].github_id != #[trigger] s[j].github_id
            &&& s[i].username@ != s[j].username@
            &&& s[i].email@ != s[j].email@
        }
}

/// Some user came from provider id `gid`.
pub open spec fn github_known(s: Seq<User>, gid: u32) -> bool {
    exists|i: int| 0 <= i < s.len() && #[trigger] s[i].github_id == gid
}

/// Some user already has this name or this email.
pub open spec fn identity_taken(s: Seq<User>, username: Seq<char>, email: Seq<char>) -> bool {
    exists|i: int|
        0 <= i < s.len() && ((#[trigger] s[i]).username@ == username || s[i].email@ == email)
}

/// Task ids increase with position and stay below the next id to hand out.
pub open spec fn items_wf(s: Seq<TodoItem>, next: u32) -> bool {
    &&& 1 <= next
    &&& forall|i: int| 0 <= i < s.len() ==> #[trigger] s[i].id < next
    &&& forall|i: int, j: int| 0 <= i < j < s.len() ==> #[trigger] s[i].id < #[trigger] s[j].id
}

/// The tasks of user `uid`, in store order.
pub open spec fn owned_items(s: Seq<TodoItem>, uid: u32) -> Seq<TodoItem> {
    s.filter(|t: TodoItem| t.user_id == uid)
}

/// Task `id` exists and belongs to user `uid`.
pub open spec fn owns(s: Seq<TodoItem>, uid: u32, id: u32) -> bool {
    exists|i: int| 0 <= i < s.len() && #[trigger] s[i].id == id && s[i].user_id == uid
}

/// The tasks after user `uid` sets the state of task `id` to `done`.
pub open spec fn with_done(s: Seq<TodoItem>, uid: u32, id: u32, done: bool) -> Seq<TodoItem> {
    s.map_values(
        |t: TodoItem|
            if t.id == id && t.user_id == uid {
                TodoItem { id: t.id, content: t.content, done: done, user_id: t.user_id }
            } else {
                t
            },
    )
}

pub struct Database {
    users: Vec<User>,
    sessions: Vec<SessionRecord>,
    csrf_tokens: Vec<CsrfRecord>,
    todo_items: Vec<TodoItem>,
    next_item_id: u32,
}

impl Database {
    /// Stored anti-forgery tokens, each with its expiry time.
    pub closed spec fn csrf_view(&self) -> Map<Seq<char>, u64> {
        keyed_map(csrf_rows(self.csrf_tokens@))
    }

    /// Stored sessions: token to owner and expiry time.
    pub closed spec fn session_view(&self) -> Map<Seq<char>, (u32, u64)> {
        keyed_map(session_rows(self.sessions@))
    }

    pub closed spec fn users_view(&self) -> Seq<User> {
        self.users@
    }

    pub closed spec fn items_view(&self) -> Seq<TodoItem> {
        self.todo_items@
    }

    /// The id the next task will get.
    pub closed spec fn next_item_id(&self) -> u32 {
        self.next_item_id
    }

    pub closed spec fn wf(&self) -> bool {
        &&& unique_keys(csrf_rows(self.csrf_tokens@))
        &&& unique_keys(session_rows(self.sessions@))
        &&& users_wf(self.users@)
        &&& items_wf(self.todo_items@, self.next_item_id)
    }

    /// What the store's well-formedness means for its users and tasks.
    pub proof fn lemma_wf(&self)
        requires
            self.wf(),
        ensures
            users_wf(self.users_view()),
            items_wf(self.items_view(), self.next_item_id()),
    {
    }

    pub fn new() -> (r: Database)
        ensures
            r.wf(),
            r.csrf_view() == Map::<Seq<char>, u64>::empty(),
            r.session_view() == Map::<Seq<char>, (u32, u64)>::empty(),
            r.users_view() == Seq::<User>::empty(),
            r.items_view() == Seq::<TodoItem>::empty(),
            r.next_item_id() == 1,
    {
        let r = Database {
            users: Vec::new(),
            sessions: Vec::new(),
            csrf_tokens: Vec::new(),
            todo_items: Vec::new(),
            next_item_id: 1,
        };
        assert(r.csrf_view() =~= Map::<Seq<char>, u64>::empty());
        assert(r.session_view() =~= Map::<Seq<char>, (u32, u64)>::empty());
        r
    }

    pub fn user_count(&self) -> (r: u32)
        requires
            self.wf(),
        ensures
            r == self.users_view().len(),
    {
        self.users.len() as u32
    }

    fn find_csrf(&self, value: &String) -> (r: Option<usize>)
        ensures
            match r {
                Some(i) => i < self.csrf_tokens@.len() && csrf_rows(self.csrf_tokens@)[i as int].0
                    == value@,
                None => !has_key(csrf_rows(self.csrf_tokens@), value@),
            },
    {
        let mut i: usize = 0;
        while i < self.csrf_tokens.len()
            invariant
                i <= self.csrf_tokens@.len(),
                forall|j: int| 0 <= j < i ==> csrf_rows(self.csrf_tokens@)[j].0 != value@,
            decreases self.csrf_tokens@.len() - i,
        {
            if self.csrf_tokens[i].value == *value {
                return Some(i);
            }
            i += 1;
        }
        None
    }

    /// Stores a fresh anti-forgery token that expires `CSRF_LIFETIME_SECS` after `now`.
    pub fn add_csrf_token(&mut self, value: String, now: u64) -> (r: Result<(), ApiError>)
        requires
            old(self).wf(),
            now <= u64::MAX - crate::types::CSRF_LIFETIME_SECS,
        ensures
            final(self).wf(),
            r is Err <==> old(self).csrf_view().contains_key(value@),
            r is Err ==> r == Err::<(), ApiError>(ApiError::StoreFailure) && final(self).csrf_view()
                == old(self).csrf_view(),
            r is Ok ==> final(self).csrf_view() == old(self).csrf_view().insert(
                value@,
                (now + crate::types::CSRF_LIFETIME_SECS) as u64,
            ),
            final(self).session_view() == old(self).session_view(),
            final(self).users_view() == old(self).users_view(),
            final(self).items_view() == old(self).items_view(),
            final(self).next_item_id() == old(self).next_item_id(),
    {
        match self.find_csrf(&value) {
            Some(i) => {
                proof {
                    lemma_keyed_index(csrf_rows(self.csrf_tokens@), i as int);
                }
                Err(ApiError::StoreFailure)
            },
            None => {
                let ghost s = self.csrf_tokens@;
                let ghost k = value@;
                let rec = CsrfRecord { value, expires: now + crate::types::CSRF_LIFETIME_SECS };
                self.csrf_tokens.push(rec);
                proof {
                    assert(csrf_rows(self.csrf_tokens@) =~= csrf_rows(s).push((k, rec.expires)));
                    lemma_keyed_push(csrf_rows(s), k, rec.expires);
                }
                Ok(())
            },
        }
    }

    /// Redeems an anti-forgery token: a stored token is deleted whatever its age,
    /// and the answer says whether it was still within its window.
    pub fn get_csrf_token(&mut self, value: &String, now: u64) -> (r: Result<(), CsrfError>)
        requires
            old(self).wf(),
        ensures
            final(self).wf(),
            r == csrf_outcome(old(self).csrf_view(), value@, now),
            final(self).csrf_view() == old(self).csrf_view().remove(value@),
            final(self).session_view() == old(self).session_view(),
            final(self).users_view() == old(self).users_view(),
            final(self).items_view() == old(self).items_view(),
            final(self).next_item_id() == old(self).next_item_id(),
    {
        match self.find_csrf(value) {
            None => {
                proof {
                    lemma_keyed_absent(csrf_rows(self.csrf_tokens@), value@);
                    assert(self.csrf_view() =~= self.csrf_view().remove(value@));
                }
                Err(CsrfError::NotFound)
            },
            Some(i) => {
                let ghost s = self.csrf_tokens@;
                proof {
                    lemma_keyed_index(csrf_rows(s), i as int);
                    lemma_keyed_remove(csrf_rows(s), i as int);
                }
                let rec = self.csrf_tokens.remove(i);
                proof {
                    assert(csrf_rows(self.csrf_tokens@) =~= csrf_rows(s).remove(i as int));
                }
                if rec.expires < now {
                    Err(CsrfError::Expired)
                } else {
                    Ok(())
                }
            },
        }
    }

    /// Deletes an anti-forgery token if it is stored.
    pub fn delete_csrf_token(&mut self, value: &String)
        requires
            old(self).wf(),
        ensures
            final(self).wf(),
            final(self).csrf_view() == old(self).csrf_view().remove(value@),
            final(self).session_view() == old(self).session_view(),
            final(self).users_view() == old(self).users_view(),
            final(self).items_view() == old(self).items_view(),
            final(self).next_item_id() == old(self).next_item_id(),
    {
        let _ = self.get_csrf_token(value, 0);
    }

    fn find_session(&self, session: &String) -> (r: Option<usize>)
        ensures
            match r {
                Some(i) => i < self.sessions@.len() && session_rows(self.sessions@)[i as int].0
                    == session@,
                None => !has_key(session_rows(self.sessions@), session@),
            },
    {
        let mut i: usize = 0;
        while i < self.sessions.len()
            invariant
                i <= self.sessions@.len(),
                forall|j: int| 0 <= j < i ==> session_rows(self.sessions@)[j].0 != session@,
            decreases self.sessions@.len() - i,
        {
            if self.sessions[i].session == *session {
                return Some(i);
            }
            i += 1;
        }
        None
    }

    /// Stores a session for `user_id` that expires at `expires`.
    pub fn add_session(&mut self, user_id: u32, session: String, expires: u64) -> (r: Result<
        (),
        ApiError,
    >)
        requires
            old(self).wf(),
        ensures
            final(self).wf(),
            r is Err <==> old(self).session_view().contains_key(session@),
            r is Err ==> r == Err::<(), ApiError>(ApiError::StoreFailure)
                && final(self).session_view() == old(self).session_view(),
            r is Ok ==> final(self).session_view() == old(self).session_view().insert(
                session@,
                (user_id, expires),
            ),
            final(self).csrf_view() == old(self).csrf_view(),
            final(self).users_view() == old(self).users_view(),
            final(self).items_view() == old(self).items_view(),
            final(self).next_item_id() == old(self).next_item_id(),
    {
        match self.find_session(&session) {
            Some(i) => {
                proof {
                    lemma_keyed_index(session_rows(self.sessions@), i as int);
                }
                Err(ApiError::StoreFailure)
            },
            None => {
                let ghost s = self.sessions@;
                let ghost k = session@;
                let rec = SessionRecord { user_id, session, expires };
                self.sessions.push(rec);
                proof {
                    assert(session_rows(self.sessions@) =~= session_rows(s).push(
                        (k, (user_id, expires)),
                    ));
                    lemma_keyed_push(session_rows(s), k, (user_id, expires));
                }
                Ok(())
            },
        }
    }

    /// Looks a session up at time `now`. An expired session is deleted on the spot
    /// and reported like an unknown one.
    pub fn get_session(&mut self, session: &String, now: u64) -> (r: Result<u32, ApiError>)
        requires
            old(self).wf(),
        ensures
            final(self).wf(),
            r == match session_outcome(old(self).session_view(), session@, now) {
                Some(u) => Ok::<u32, ApiError>(u),
                None => Err(ApiError::Unauthorized),
            },
            final(self).session_view() == session_purge(old(self).session_view(), session@, now),
            final(self).csrf_view() == old(self).csrf_view(),
            final(self).users_view() == old(self).users_view(),
            final(self).items_view() == old(self).items_view(),
            final(self).next_item_id() == old(self).next_item_id(),
    {
        match self.find_session(session) {
            None => {
                proof {
                    lemma_keyed_absent(session_rows(self.sessions@), session@);
                }
                Err(ApiError::Unauthorized)
            },
            Some(i) => {
                let ghost s = self.sessions@;
                proof {
                    lemma_keyed_index(session_rows(s), i as int);
                }
                if self.sessions[i].expires < now {
                    proof {
                        lemma_keyed_remove(session_rows(s), i as int);
                    }
                    let _ = self.sessions.remove(i);
                    proof {
                        assert(session_rows(self.sessions@) =~= session_rows(s).remove(i as int));
                    }
                    Err(ApiError::Unauthorized)
                } else {
                    Ok(self.sessions[i].user_id)
                }
            },
        }
    }

    /// Deletes a session. Reports `Unauthorized` when none was stored under `session`.
    pub fn delete_session(&mut self, session: &String) -> (r: Result<(), ApiError>)
        requires
            old(self).wf(),
        ensures
            final(self).wf(),
            r is Ok <==> old(self).session_view().contains_key(session@),
            r is Err ==> r == Err::<(), ApiError>(ApiError::Unauthorized),
            final(self).session_view() == old(self).session_view().remove(session@),
            final(self).csrf_view() == old(self).csrf_view(),
            final(self).users_view() == old(self).users_view(),
            final(self).items_view() == old(self).items_view(),
            final(self).next_item_id() == old(self).next_item_id(),
    {
        match self.find_session(session) {
            None => {
                proof {
                    lemma_keyed_absent(session_rows(self.sessions@), session@);
                    assert(self.session_view() =~= self.session_view().remove(session@));
                }
                Err(ApiError::Unauthorized)
            },
            Some(i) => {
                let ghost s = self.sessions@;
                proof {
                    lemma_keyed_index(session_rows(s), i as int);
                    lemma_keyed_remove(session_rows(s), i as int);
                }
                let _ = self.sessions.remove(i);
                proof {
                    assert(session_rows(self.sessions@) =~= session_rows(s).remove(i as int));
                }
                Ok(())
            },
        }
    }

    fn identity_clash(&self, github_id: u32, username: &String, email: &String) -> (r: bool)
        ensures
            r == (github_known(self.users@, github_id) || identity_taken(
                self.users@,
                username@,
                email@,
            )),
    {
        let mut i: usize = 0;
        while i < self.users.len()
            invariant
                i <= self.users@.len(),
                forall|j: int|
                    0 <= j < i ==> {
                        &&& (#[trigger] self.users@[j]).github_id != github_id
                        &&& self.users@[j].username@ != username@
                        &&& self.users@[j].email@ != email@
                    },
            decreases self.users@.len() - i,
        {
            let u = &self.users[i];
            if u.github_id == github_id {
                assert(self.users@[i as int].github_id == github_id);
                return true;
            }
            if u.username == *username || u.email == *email {
                assert(self.users@[i as int].username@ == username@ || self.users@[i as int].email@
                    == email@);
                return true;
            }
            i += 1;
        }
        false
    }

    /// Creates a user with the next id. A provider id, name or email that is
    /// already registered is a conflict; nothing is merged.
    pub fn add_user(
        &mut self,
        github_id: u32,
        username: String,
        email: String,
        profile_picture_url: String,
    ) -> (r: Result<u32, ApiError>)
        requires
            old(self).wf(),
        ensures
            final(self).wf(),
            ({
                let u = old(self).users_view();
                if github_known(u, github_id) || identity_taken(u, username@, email@) {
                    r == Err::<u32, ApiError>(ApiError::Conflict) && final(self).users_view() == u
                } else if u.len() + 1 >= u32::MAX {
                    r == Err::<u32, ApiError>(ApiError::StoreFailure) && final(self).users_view()
                        == u
                } else {
                    &&& r == Ok::<u32, ApiError>((u.len() + 1) as u32)
                    &&& final(self).users_view() == u.push(
                        User {
                            id: (u.len() + 1) as u32,
                            github_id,
                            username,
                            email,
                            profile_picture_url,
                        },
                    )
                }
            }),
            final(self).csrf_view() == old(self).csrf_view(),
            final(self).session_view() == old(self).session_view(),
            final(self).items_view() == old(self).items_view(),
            final(self).next_item_id() == old(self).next_item_id(),
    {
        if self.identity_clash(github_id, &username, &email) {
            return Err(ApiError::Conflict);
        }
        if self.users.len() >= (u32::MAX - 1) as usize {
            return Err(ApiError::StoreFailure);
        }
        let id = (self.users.len() + 1) as u32;
        let user = User { id, github_id, username, email, profile_picture_url };
        self.users.push(user);
        Ok(id)
    }

    /// The user with internal id `user_id`.
    pub fn get_user(&self, user_id: u32) -> (r: Result<User, ApiError>)
        requires
            self.wf(),
        ensures
            1 <= user_id <= self.users_view().len() ==> r == Ok::<User, ApiError>(
                self.users_view()[user_id - 1],
            ),
            !(1 <= user_id <= self.users_view().len()) ==> r == Err::<User, ApiError>(
                ApiError::NotFoundOrForbidden,
            ),
    {
        if 1 <= user_id && (user_id as usize) <= self.users.len() {
            Ok(self.users[(user_id - 1) as usize].copy())
        } else {
            Err(ApiError::NotFoundOrForbidden)
        }
    }

    /// The user who came from provider id `github_id`.
    pub fn get_user_by_github_id(&self, github_id: u32) -> (r: Result<User, ApiError>)
        requires
            self.wf(),
        ensures
            r is Ok <==> github_known(self.users_view(), github_id),
            match r {
                Ok(u) => u.github_id == github_id && self.users_view().contains(u),
                Err(e) => e == ApiError::NotFoundOrForbidden,
            },
    {
        let mut i: usize = 0;
        while i < self.users.len()
            invariant
                i <= self.users@.len(),
                forall|j: int| 0 <= j < i ==> #[trigger] self.users@[j].github_id != github_id,
            decreases self.users@.len() - i,
        {
            if self.users[i].github_id == github_id {
                let u = self.users[i].copy();
                assert(self.users@[i as int] == u);
                return Ok(u);
            }
            i += 1;
        }
        Err(ApiError::NotFoundOrForbidden)
    }

    /// The tasks of user `user_id`, in the order they were created.
    pub fn get_todo_items(&self, user_id: u32) -> (r: Vec<TodoItem>)
        requires
            self.wf(),
        ensures
            r@ == owned_items(self.items_view(), user_id),
    {
        let mut r: Vec<TodoItem> = Vec::new();
        let mut i: usize = 0;
        while i < self.todo_items.len()
            invariant
                i <= self.todo_items@.len(),
                r@ == owned_items(self.todo_items@.take(i as int), user_id),
            decreases self.todo_items@.len() - i,
        {
            let ghost s = self.todo_items@;
            proof {
                assert(s.take(i + 1).drop_last() =~= s.take(i as int));
                reveal(Seq::filter);
            }
            if self.todo_items[i].user_id == user_id {
                r.push(self.todo_items[i].copy());
            }
            i += 1;
        }
        assert(self.todo_items@.take(i as int) =~= self.todo_items@);
        r
    }

    /// Creates a task for `user_id`, not done, under the next free id.
    pub fn add_todo_item(&mut self, user_id: u32, content: String) -> (r: Result<u32, ApiError>)
        requires
            old(self).wf(),
        ensures
            final(self).wf(),
            old(self).next_item_id() == u32::MAX ==> r == Err::<u32, ApiError>(
                ApiError::StoreFailure,
            ) && final(self).items_view() == old(self).items_view()
                && final(self).next_item_id() == old(self).next_item_id(),
            old(self).next_item_id() < u32::MAX ==> {
                &&& r == Ok::<u32, ApiError>(old(self).next_item_id())
                &&& final(self).items_view() == old(self).items_view().push(
                    TodoItem { id: old(self).next_item_id(), content, done: false, user_id },
                )
                &&& final(self).next_item_id() == old(self).next_item_id() + 1
            },
            final(self).csrf_view() == old(self).csrf_view(),
            final(self).session_view() == old(self).session_view(),
            final(self).users_view() == old(self).users_view(),
    {
        if self.next_item_id == u32::MAX {
            return Err(ApiError::StoreFailure);
        }
        let id = self.next_item_id;
        self.todo_items.push(TodoItem { id, content, done: false, user_id });
        self.next_item_id = id + 1;
        Ok(id)
    }

    fn find_item(&self, id: u32) -> (r: Option<usize>)
        ensures
            match r {
                Some(i) => i < self.todo_items@.len() && self.todo_items@[i as int].id == id,
                None => forall|j: int|
                    0 <= j < self.todo_items@.len() ==> #[trigger] self.todo_items@[j].id != id,
            },
    {
        let mut i: usize = 0;
        while i < self.todo_items.len()
            invariant
                i <= self.todo_items@.len(),
                forall|j: int| 0 <= j < i ==> #[trigger] self.todo_items@[j].id != id,
            decreases self.todo_items@.len() - i,
        {
            if self.todo_items[i].id == id {
                return Some(i);
            }
            i += 1;
        }
        None
    }

    /// Sets the state of task `id` if it belongs to `user_id`. Another user's task
    /// is reported exactly like a missing one.
    pub fn update_todo_item(&mut self, user_id: u32, id: u32, done: bool) -> (r: Result<
        (),
        ApiError,
    >)
        requires
            old(self).wf(),
        ensures
            final(self).wf(),
            r is Ok <==> owns(old(self).items_view(), user_id, id),
            r is Err ==> r == Err::<(), ApiError>(ApiError::NotFoundOrForbidden),
            final(self).items_view() == with_done(old(self).items_view(), user_id, id, done),
            final(self).next_item_id() == old(self).next_item_id(),
            final(self).csrf_view() == old(self).csrf_view(),
            final(self).session_view() == old(self).session_view(),
            final(self).users_view() == old(self).users_view(),
    {
        let ghost s = self.todo_items@;
        let found = self.find_item(id);
        if let Some(i) = found {
            if self.todo_items[i].user_id == user_id {
                let old_item = self.todo_items[i].copy();
                let new_item = TodoItem {
                    id: old_item.id,
                    content: old_item.content,
                    done,
                    user_id: old_item.user_id,
                };
                self.todo_items.set(i, new_item);
                proof {
                    assert forall|j: int| 0 <= j < s.len() && j != i implies #[trigger] s[j].id
                        != id by {
                        if j < i {
                            assert(s[j].id < s[i as int].id);
                        } else {
                            assert(s[i as int].id < s[j].id);
                        }
                    }
                    assert(self.todo_items@ =~= with_done(s, user_id, id, done));
                    assert(s[i as int].id == id && s[i as int].user_id == user_id);
                }
                return Ok(());
            }
        }
        proof {
            self.lemma_not_owned(found, user_id, id);
            assert(s =~= with_done(s, user_id, id, done));
        }
        Err(ApiError::NotFoundOrForbidden)
    }

    /// Deletes task `id` if it belongs to `user_id`. Another user's task is
    /// reported exactly like a missing one.
    pub fn delete_todo_item(&mut self, user_id: u32, id: u32) -> (r: Result<(), ApiError>)
        requires
            old(self).wf(),
        ensures
            final(self).wf(),
            r is Ok <==> owns(old(self).items_view(), user_id, id),
            r is Ok ==> exists|i: int|
                0 <= i < old(self).items_view().len() && #[trigger] old(self).items_view()[i].id
                    == id && final(self).items_view() == old(self).items_view().remove(i),
            r is Err ==> r == Err::<(), ApiError>(ApiError::NotFoundOrForbidden)
                && final(self).items_view() == old(self).items_view(),
            final(self).next_item_id() == old(self).next_item_id(),
            final(self).csrf_view() == old(self).csrf_view(),
            final(self).session_view() == old(self).session_view(),
            final(self).users_view() == old(self).users_view(),
    {
        let ghost s = self.todo_items@;
        let found = self.find_item(id);
        if let Some(i) = found {
            if self.todo_items[i].user_id == user_id {
                let _ = self.todo_items.remove(i);
                proof {
                    let t = self.todo_items@;
                    assert forall|a: int| 0 <= a < t.len() implies #[trigger] t[a] == s[if a < i {
                        a
                    } else {
                        a + 1
                    }] by {}
                    assert forall|a: int, b: int| 0 <= a < b < t.len() implies #[trigger] t[a].id
                        < #[trigger] t[b].id by {
                        let a2 = if a < i { a } else { a + 1 };
                        let b2 = if b < i { b } else { b + 1 };
                        assert(s[a2].id < s[b2].id);
                    }
                    assert forall|a: int| 0 <= a < t.len() implies #[trigger] t[a].id
                        < self.next_item_id by {
                        let a2 = if a < i { a } else { a + 1 };
                        assert(s[a2].id < self.next_item_id);
                    }
                    assert(s[i as int].id == id && s[i as int].user_id == user_id);
                    assert(old(self).items_view()[i as int].id == id && self.items_view() == old(
                        self,
                    ).items_view().remove(i as int));
                }
                return Ok(());
            }
        }
        proof {
            self.lemma_not_owned(found, user_id, id);
        }
        Err(ApiError::NotFoundOrForbidden)
    }

    proof fn lemma_not_owned(&self, found: Option<usize>, user_id: u32, id: u32)
        requires
            self.wf(),
            match found {
                Some(i) => i < self.todo_items@.len() && self.todo_items@[i as int].id == id
                    && self.todo_items@[i as int].user_id != user_id,
                None => forall|j: int|
                    0 <= j < self.todo_items@.len() ==> #[trigger] self.todo_items@[j].id != id,
            },
        ensures
            !owns(self.todo_items@, user_id, id),
            forall|j: int|
                0 <= j < self.todo_items@.len() ==> !(#[trigger] self.todo_items@[j].id == id
                    && self.todo_items@[j].user_id == user_id),
    {
        let s = self.todo_items@;
        assert forall|j: int| 0 <= j < s.len() implies !(#[trigger] s[j].id == id && s[j].user_id
            == user_id) by {
            if let Some(i) = found {
                if s[j].id == id {
                    if j < i {
                        assert(s[j].id < s[i as int].id);
                    } else if j > i {
                        assert(s[i as int].id < s[j].id);
                    }
                }
            }
        }
    }
}

} // verus!
