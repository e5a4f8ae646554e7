//! Facts about the service that hold across several calls.
use vstd::prelude::*;

use crate::database::{
    csrf_outcome, github_known, items_wf, owned_items, owns, session_outcome, session_purge, users_wf,
    with_done,
};
use crate::logic::{github_user_id, resolve_effect, resolve_outcome, validate_result};
use crate::types::{ApiError, CsrfError, TodoItem, User, CSRF_LIFETIME_SECS, SESSION_LIFETIME_SECS};

verus! {

/// A credential issued to `user_id` at `now` validates to `user_id` at any time
/// up to its expiry, and the check leaves the sessions as they are.
pub proof fn lemma_issue_then_validate(
    sessions: Map<Seq<char>, (u32, u64)>,
    token: Seq<char>,
    user_id: u32,
    now: u64,
    later: u64,
)
    requires
        now <= u64::MAX - SESSION_LIFETIME_SECS,
        now <= later <= now + SESSION_LIFETIME_SECS,
    ensures
        ({
            let issued = sessions.insert(token, (user_id, (now + SESSION_LIFETIME_SECS) as u64));
            &&& validate_result(session_outcome(issued, token, later)) == Ok::<u32, ApiError>(
                user_id,
            )
            &&& session_purge(issued, token, later) == issued
        }),
{
}

/// Once a session's expiry has passed, checking it answers `Unauthorized`, and
/// so does every later check of the same credential, since the first one
/// purged it.
pub proof fn lemma_expired_session_stays_invalid(
    sessions: Map<Seq<char>, (u32, u64)>,
    token: Seq<char>,
    now: u64,
    later: u64,
)
    requires
        sessions.contains_key(token),
        sessions[token].1 < now,
    ensures
        validate_result(session_outcome(sessions, token, now)) == Err::<u32, ApiError>(
            ApiError::Unauthorized,
        ),
        !session_purge(sessions, token, now).contains_key(token),
        validate_result(session_outcome(session_purge(sessions, token, now), token, later))
            == Err::<u32, ApiError>(ApiError::Unauthorized),
{
}

/// An anti-forgery value issued at `issued_at` redeems once while its window
/// lasts; redeeming it a second time answers `NotFound`.
pub proof fn lemma_csrf_single_use(
    tokens: Map<Seq<char>, u64>,
    value: Seq<char>,
    issued_at: u64,
    now: u64,
    later: u64,
)
    requires
        issued_at <= u64::MAX - CSRF_LIFETIME_SECS,
        issued_at <= now <= issued_at + CSRF_LIFETIME_SECS,
    ensures
        ({
            let issued = tokens.insert(value, (issued_at + CSRF_LIFETIME_SECS) as u64);
            &&& csrf_outcome(issued, value, now) == Ok::<(), CsrfError>(())
            &&& csrf_outcome(issued.remove(value), value, later) == Err::<(), CsrfError>(
                CsrfError::NotFound,
            )
        }),
{
}

/// A task of user `a` is out of reach of any other user `b`: `b` does not own
/// it, so an update or a delete by `b` fails, and the update leaves every task
/// as it was.
pub proof fn lemma_ownership_isolation(
    items: Seq<TodoItem>,
    next: u32,
    a: u32,
    b: u32,
    i: int,
    done: bool,
)
    requires
        items_wf(items, next),
        0 <= i < items.len(),
        items[i].user_id == a,
        a != b,
    ensures
        !owns(items, b, items[i].id),
        with_done(items, b, items[i].id, done) == items,
{
    assert forall|j: int| 0 <= j < items.len() implies !(#[trigger] items[j].id == items[i].id
        && items[j].user_id == b) by {
        if j < i {
            assert(items[j].id < items[i].id);
        } else if j > i {
            assert(items[i].id < items[j].id);
        }
    }
    assert(with_done(items, b, items[i].id, done) =~= items);
}

/// Resolving the same provider identity a second time gives the same user id
/// and creates no user.
pub proof fn lemma_resolve_idempotent(
    users: Seq<User>,
    after: Seq<User>,
    gid: u32,
    username: Seq<char>,
    email: Seq<char>,
    avatar: Seq<char>,
)
    requires
        users_wf(users),
        users_wf(after),
        resolve_outcome(users, gid, username, email) is Ok,
        resolve_effect(users, after, gid, username, email, avatar),
    ensures
        github_known(after, gid),
        resolve_outcome(after, gid, username, email) == resolve_outcome(
            users,
            gid,
            username,
            email,
        ),
        forall|again: Seq<User>|
            resolve_effect(after, again, gid, username, email, avatar) ==> again == after,
{
    if !github_known(users, gid) {
        let last = after.len() - 1;
        assert(after[last].github_id == gid);
        assert(github_known(after, gid));
        let k = choose|k: int| 0 <= k < after.len() && #[trigger] after[k].github_id == gid;
        assert(after[k].github_id == after[last].github_id);
        assert(github_user_id(after, gid) == after[last].id);
    }
}

/// Listing a user's tasks after that user sets the state of task `id` gives the
/// earlier listing with only that task's `done` changed: same tasks, same order,
/// same ids, contents and owners.
pub proof fn lemma_update_then_list(items: Seq<TodoItem>, uid: u32, id: u32, done: bool)
    ensures
        owned_items(with_done(items, uid, id, done), uid) == with_done(
            owned_items(items, uid),
            uid,
            id,
            done,
        ),
    decreases items.len(),
{
    reveal(Seq::filter);
    if items.len() > 0 {
        let init = items.drop_last();
        lemma_update_then_list(init, uid, id, done);
        assert(with_done(items, uid, id, done).drop_last() =~= with_done(init, uid, id, done));
        let owned = owned_items(init, uid);
        let x = items.last();
        if x.user_id == uid {
            assert(with_done(owned.push(x), uid, id, done) =~= with_done(owned, uid, id, done).push(
                with_done(items, uid, id, done).last(),
            ));
        }
    } else {
        assert(with_done(items, uid, id, done) =~= items);
        assert(owned_items(items, uid) =~= items);
        assert(with_done(owned_items(items, uid), uid, id, done) =~= items);
    }
}

} // verus!
