use todo_backend::database::Database;
use todo_backend::github::{select_primary_email, OAuthConfig};
use todo_backend::logic::Logic;
use todo_backend::types::{
    ApiError, CsrfError, GitHubEmail, GitHubUser, CSRF_LIFETIME_SECS, SESSION_LIFETIME_SECS,
    SESSION_TOKEN_LEN,
};

const NOW: u64 = 1_700_000_000;

fn config() -> OAuthConfig {
    OAuthConfig {
        client_id: String::from("client-123"),
        client_secret: String::from("secret"),
        auth_url: String::from("https://github.com/login/oauth/authorize"),
        token_url: String::from("https://github.com/login/oauth/access_token"),
        redirect_url: String::from("https://todo.example.com"),
        scopes: vec![String::from("read:user"), String::from("user:email")],
    }
}

fn logic() -> Logic {
    Logic::new(Database::new())
}

fn bob() -> (GitHubUser, Vec<GitHubEmail>) {
    (
        GitHubUser { id: 1, login: String::from("bob"), avatar_url: String::from("a.png") },
        vec![GitHubEmail { email: String::from("b@x.com"), primary: true }],
    )
}

fn alice() -> (GitHubUser, Vec<GitHubEmail>) {
    (
        GitHubUser { id: 2, login: String::from("alice"), avatar_url: String::from("b.png") },
        vec![GitHubEmail { email: String::from("a@x.com"), primary: true }],
    )
}

fn state_of(url: &str) -> String {
    let query = url.split('?').nth(1).expect("query");
    query
        .split('&')
        .find_map(|pair| pair.strip_prefix("state="))
        .expect("state parameter")
        .to_string()
}

fn login(l: &mut Logic, who: (GitHubUser, Vec<GitHubEmail>), state: &str) -> String {
    l.github_init_with_state(&config(), String::from(state), NOW).expect("init");
    let redeemed = l.github_check_state(&String::from(state), NOW).expect("state");
    l.github_success(redeemed, Some(who), NOW).expect("success")
}

#[test]
fn init_auth_url_carries_a_stored_state() {
    let mut l = logic();
    let url = l.github_init(&config(), NOW).unwrap();
    assert!(url.starts_with("https://github.com/login/oauth/authorize?"));
    let state = state_of(&url);
    assert!(!state.is_empty());
    assert!(l.github_check_state(&state, NOW).is_ok());
}

#[test]
fn init_with_state_builds_provider_url() {
    let mut l = logic();
    let url = l.github_init_with_state(&config(), String::from("abc123"), NOW).unwrap();
    assert_ne!(url, "abc123");
    assert_eq!(state_of(&url), "abc123");
    assert!(url.contains("client_id=client-123"));
    assert!(url.contains("response_type=code"));
    assert!(url.contains("scope=read%3Auser+user%3Aemail"));
}

#[test]
fn init_with_bad_endpoint_stores_nothing() {
    let mut l = logic();
    let mut c = config();
    c.auth_url = String::from("not a url");
    assert_eq!(
        l.github_init_with_state(&c, String::from("s1"), NOW),
        Err(ApiError::UpstreamFailure)
    );
    assert!(matches!(l.github_check_state(&String::from("s1"), NOW), Err(ApiError::Unauthorized)));
}

#[test]
fn init_with_same_state_twice_is_store_failure() {
    let mut l = logic();
    l.github_init_with_state(&config(), String::from("dup"), NOW).unwrap();
    assert_eq!(
        l.github_init_with_state(&config(), String::from("dup"), NOW),
        Err(ApiError::StoreFailure)
    );
}

#[test]
fn complete_auth_creates_user_and_session() {
    let mut l = logic();
    let session = login(&mut l, bob(), "tok-1");
    assert_eq!(session.len(), SESSION_TOKEN_LEN);
    assert!(session.chars().all(|c| c.is_ascii_alphanumeric()));
    assert_eq!(l.user_count(), 1);
    let me = l.whoami(&session, NOW + 10).unwrap();
    assert_eq!(me.username, "bob");
    assert_eq!(me.email, "b@x.com");
    assert_eq!(me.github_id, 1);
    assert_eq!(me.profile_picture_url, "a.png");
}

#[test]
fn replayed_state_is_unauthorized() {
    let mut l = logic();
    l.github_init_with_state(&config(), String::from("once"), NOW).unwrap();
    assert!(l.github_check_state(&String::from("once"), NOW).is_ok());
    assert!(matches!(l.github_check_state(&String::from("once"), NOW), Err(ApiError::Unauthorized)));
}

#[test]
fn expired_state_is_unauthorized_and_spent() {
    let mut l = logic();
    l.github_init_with_state(&config(), String::from("late"), NOW).unwrap();
    let after = NOW + CSRF_LIFETIME_SECS + 1;
    assert!(matches!(l.github_check_state(&String::from("late"), after), Err(ApiError::Unauthorized)));
    let mut d = Database::new();
    d.add_csrf_token(String::from("late"), NOW).unwrap();
    assert_eq!(d.get_csrf_token(&String::from("late"), after), Err(CsrfError::Expired));
    assert_eq!(d.get_csrf_token(&String::from("late"), NOW), Err(CsrfError::NotFound));
}

#[test]
fn csrf_token_redeems_once() {
    let mut d = Database::new();
    d.add_csrf_token(String::from("v"), NOW).unwrap();
    assert_eq!(d.get_csrf_token(&String::from("v"), NOW + CSRF_LIFETIME_SECS), Ok(()));
    assert_eq!(d.get_csrf_token(&String::from("v"), NOW), Err(CsrfError::NotFound));
}

#[test]
fn csrf_delete_removes_token() {
    let mut d = Database::new();
    d.add_csrf_token(String::from("v"), NOW).unwrap();
    d.delete_csrf_token(&String::from("v"));
    assert_eq!(d.get_csrf_token(&String::from("v"), NOW), Err(CsrfError::NotFound));
}

#[test]
fn issued_session_validates_to_its_user() {
    let mut l = logic();
    let t = l.issue_session(7, NOW).unwrap();
    assert_eq!(l.validate(&t, NOW), Ok(7));
    assert_eq!(l.validate(&t, NOW + SESSION_LIFETIME_SECS), Ok(7));
}

#[test]
fn issue_session_with_given_token() {
    let mut l = logic();
    assert_eq!(l.issue_session_with(3, String::from("tok"), NOW), Ok(String::from("tok")));
    assert_eq!(l.issue_session_with(4, String::from("tok"), NOW), Err(ApiError::StoreFailure));
    assert_eq!(l.validate(&String::from("tok"), NOW), Ok(3));
}

#[test]
fn expired_session_is_invalid_and_purged() {
    let mut l = logic();
    let t = l.issue_session(7, NOW).unwrap();
    let after = NOW + SESSION_LIFETIME_SECS + 1;
    assert_eq!(l.validate(&t, after), Err(ApiError::Unauthorized));
    assert_eq!(l.validate(&t, NOW), Err(ApiError::Unauthorized));
    assert_eq!(l.logout(&t), Err(ApiError::Unauthorized));
}

#[test]
fn unknown_session_is_unauthorized() {
    let mut l = logic();
    let s = String::from("nope");
    assert_eq!(l.validate(&s, NOW), Err(ApiError::Unauthorized));
    assert!(matches!(l.whoami(&s, NOW), Err(ApiError::Unauthorized)));
    assert!(matches!(l.list_items(&s, NOW), Err(ApiError::Unauthorized)));
    assert_eq!(l.create_item(&s, String::from("x"), NOW), Err(ApiError::Unauthorized));
    assert_eq!(l.update_session_item(&s, 1, true, NOW), Err(ApiError::Unauthorized));
    assert_eq!(l.delete_session_item(&s, 1, NOW), Err(ApiError::Unauthorized));
}

#[test]
fn session_for_missing_user_is_unauthorized_on_whoami() {
    let mut l = logic();
    let t = l.issue_session(42, NOW).unwrap();
    assert!(matches!(l.whoami(&t, NOW), Err(ApiError::Unauthorized)));
}

#[test]
fn logout_ends_session() {
    let mut l = logic();
    let session = login(&mut l, bob(), "s");
    assert_eq!(l.logout(&session), Ok(()));
    assert_eq!(l.validate(&session, NOW), Err(ApiError::Unauthorized));
    assert_eq!(l.logout(&session), Err(ApiError::Unauthorized));
}

#[test]
fn create_item_then_list() {
    let mut l = logic();
    let session = login(&mut l, bob(), "s");
    let me = l.whoami(&session, NOW).unwrap();
    let id = l.create_item(&session, String::from("buy milk"), NOW).unwrap();
    let items = l.list_items(&session, NOW).unwrap();
    assert_eq!(items.len(), 1);
    assert_eq!(items[0].id, id);
    assert_eq!(items[0].content, "buy milk");
    assert!(!items[0].done);
    assert_eq!(items[0].user_id, me.id);
}

#[test]
fn update_item_then_list() {
    let mut l = logic();
    let session = login(&mut l, bob(), "s");
    let first = l.create_item(&session, String::from("buy milk"), NOW).unwrap();
    let second = l.create_item(&session, String::from("walk dog"), NOW).unwrap();
    assert_eq!(l.update_session_item(&session, first, true, NOW), Ok(()));
    let items = l.list_items(&session, NOW).unwrap();
    assert_eq!(items.len(), 2);
    assert_eq!(items[0].id, first);
    assert_eq!(items[0].content, "buy milk");
    assert!(items[0].done);
    assert_eq!(items[1].id, second);
    assert!(!items[1].done);
}

#[test]
fn delete_item_removes_it() {
    let mut l = logic();
    let session = login(&mut l, bob(), "s");
    let first = l.create_item(&session, String::from("one"), NOW).unwrap();
    let second = l.create_item(&session, String::from("two"), NOW).unwrap();
    assert_eq!(l.delete_session_item(&session, first, NOW), Ok(()));
    let items = l.list_items(&session, NOW).unwrap();
    assert_eq!(items.len(), 1);
    assert_eq!(items[0].id, second);
    assert_eq!(l.delete_session_item(&session, first, NOW), Err(ApiError::NotFoundOrForbidden));
}

#[test]
fn other_users_item_is_out_of_reach() {
    let mut l = logic();
    let a = login(&mut l, bob(), "sa");
    let b = login(&mut l, alice(), "sb");
    let a_item = l.create_item(&a, String::from("mine"), NOW).unwrap();
    let b_item = l.create_item(&b, String::from("hers"), NOW).unwrap();
    assert_eq!(l.update_session_item(&b, a_item, true, NOW), Err(ApiError::NotFoundOrForbidden));
    assert_eq!(l.delete_session_item(&b, a_item, NOW), Err(ApiError::NotFoundOrForbidden));
    assert_eq!(l.update_session_item(&b, 999, true, NOW), Err(ApiError::NotFoundOrForbidden));
    let a_items = l.list_items(&a, NOW).unwrap();
    assert_eq!(a_items.len(), 1);
    assert_eq!(a_items[0].id, a_item);
    assert_eq!(a_items[0].content, "mine");
    assert!(!a_items[0].done);
    let b_items = l.list_items(&b, NOW).unwrap();
    assert_eq!(b_items.len(), 1);
    assert_eq!(b_items[0].id, b_item);
}

#[test]
fn item_ops_by_user_id() {
    let mut l = logic();
    assert_eq!(l.add_item(1, String::from("a")), Ok(1));
    assert_eq!(l.add_item(2, String::from("b")), Ok(2));
    assert_eq!(l.update_item(2, 1, true), Err(ApiError::NotFoundOrForbidden));
    assert_eq!(l.update_item(1, 1, true), Ok(()));
    assert!(l.get_items(1)[0].done);
    assert_eq!(l.delete_item(1, 2), Err(ApiError::NotFoundOrForbidden));
    assert_eq!(l.delete_item(2, 2), Ok(()));
    assert!(l.get_items(2).is_empty());
}

#[test]
fn resolving_twice_gives_same_user() {
    let mut l = logic();
    let first = l.resolve_identity(10, String::from("bob"), String::from("b@x.com"), String::from("a.png"));
    let second = l.resolve_identity(10, String::from("bob"), String::from("b@x.com"), String::from("a.png"));
    assert_eq!(first, Ok(1));
    assert_eq!(second, Ok(1));
    assert_eq!(l.user_count(), 1);
}

#[test]
fn second_login_keeps_one_user() {
    let mut l = logic();
    let s1 = login(&mut l, bob(), "s1");
    let s2 = login(&mut l, bob(), "s2");
    assert_ne!(s1, s2);
    assert_eq!(l.user_count(), 1);
    assert_eq!(l.whoami(&s1, NOW).unwrap().id, l.whoami(&s2, NOW).unwrap().id);
}

#[test]
fn colliding_identity_is_conflict() {
    let mut l = logic();
    assert_eq!(
        l.resolve_identity(1, String::from("bob"), String::from("b@x.com"), String::from("")),
        Ok(1)
    );
    assert_eq!(
        l.resolve_identity(2, String::from("bob"), String::from("other@x.com"), String::from("")),
        Err(ApiError::Conflict)
    );
    assert_eq!(
        l.resolve_identity(3, String::from("carol"), String::from("b@x.com"), String::from("")),
        Err(ApiError::Conflict)
    );
    assert_eq!(l.user_count(), 1);
    let mut d = Database::new();
    d.add_user(5, String::from("x"), String::from("x@x"), String::from("")).unwrap();
    assert_eq!(
        d.add_user(5, String::from("y"), String::from("y@y"), String::from("")),
        Err(ApiError::Conflict)
    );
}

#[test]
fn login_with_colliding_name_reports_conflict() {
    let mut l = logic();
    login(&mut l, bob(), "s1");
    let impostor = GitHubUser { id: 99, login: String::from("bob"), avatar_url: String::new() };
    let emails = vec![GitHubEmail { email: String::from("z@x.com"), primary: true }];
    l.github_init_with_state(&config(), String::from("s2"), NOW).unwrap();
    let redeemed = l.github_check_state(&String::from("s2"), NOW).unwrap();
    assert_eq!(l.github_success(redeemed, Some((impostor, emails)), NOW), Err(ApiError::Conflict));
    assert_eq!(l.user_count(), 1);
}

#[test]
fn users_are_numbered_from_one() {
    let mut d = Database::new();
    assert_eq!(d.add_user(11, String::from("a"), String::from("a@a"), String::from("p")), Ok(1));
    assert_eq!(d.add_user(12, String::from("b"), String::from("b@b"), String::from("q")), Ok(2));
    assert_eq!(d.user_count(), 2);
    let u = d.get_user(2).unwrap();
    assert_eq!(u.github_id, 12);
    assert_eq!(u.username, "b");
    assert!(matches!(d.get_user(0), Err(ApiError::NotFoundOrForbidden)));
    assert!(matches!(d.get_user(3), Err(ApiError::NotFoundOrForbidden)));
    assert_eq!(d.get_user_by_github_id(11).unwrap().id, 1);
    assert!(matches!(d.get_user_by_github_id(13), Err(ApiError::NotFoundOrForbidden)));
}

#[test]
fn session_store_rules() {
    let mut d = Database::new();
    assert_eq!(d.add_session(1, String::from("t"), NOW), Ok(()));
    assert_eq!(d.add_session(2, String::from("t"), NOW), Err(ApiError::StoreFailure));
    assert_eq!(d.get_session(&String::from("t"), NOW), Ok(1));
    assert_eq!(d.get_session(&String::from("t"), NOW + 1), Err(ApiError::Unauthorized));
    assert_eq!(d.delete_session(&String::from("t")), Err(ApiError::Unauthorized));
    assert_eq!(d.add_session(3, String::from("u"), NOW), Ok(()));
    assert_eq!(d.delete_session(&String::from("u")), Ok(()));
    assert_eq!(d.get_session(&String::from("u"), NOW), Err(ApiError::Unauthorized));
}

#[test]
fn primary_email_is_first_marked() {
    let emails = vec![
        GitHubEmail { email: String::from("x@x"), primary: false },
        GitHubEmail { email: String::from("y@y"), primary: true },
        GitHubEmail { email: String::from("z@z"), primary: true },
    ];
    assert_eq!(select_primary_email(&emails), Some(String::from("y@y")));
}

#[test]
fn no_primary_email_is_none() {
    let emails = vec![GitHubEmail { email: String::from("x@x"), primary: false }];
    assert_eq!(select_primary_email(&emails), None);
    assert_eq!(select_primary_email(&Vec::new()), None);
}

#[test]
fn login_without_primary_email_fails() {
    let mut l = logic();
    l.github_init_with_state(&config(), String::from("s"), NOW).unwrap();
    let redeemed = l.github_check_state(&String::from("s"), NOW).unwrap();
    let user = GitHubUser { id: 1, login: String::from("bob"), avatar_url: String::from("a.png") };
    let emails = vec![GitHubEmail { email: String::from("b@x.com"), primary: false }];
    assert_eq!(l.github_success(redeemed, Some((user, emails)), NOW), Err(ApiError::UpstreamFailure));
    assert_eq!(l.user_count(), 0);
}

#[test]
fn provider_failure_fails_login_and_spends_state() {
    let mut l = logic();
    l.github_init_with_state(&config(), String::from("s"), NOW).unwrap();
    let redeemed = l.github_check_state(&String::from("s"), NOW).unwrap();
    assert_eq!(l.github_success(redeemed, None, NOW), Err(ApiError::UpstreamFailure));
    assert_eq!(l.user_count(), 0);
    assert!(matches!(l.github_check_state(&String::from("s"), NOW), Err(ApiError::Unauthorized)));
}

#[test]
fn success_with_given_session() {
    let mut l = logic();
    l.github_init_with_state(&config(), String::from("s"), NOW).unwrap();
    let redeemed = l.github_check_state(&String::from("s"), NOW).unwrap();
    assert_eq!(
        l.github_success_with_session(redeemed, Some(bob()), String::from("cred"), NOW),
        Ok(String::from("cred"))
    );
    assert_eq!(l.whoami(&String::from("cred"), NOW).unwrap().username, "bob");
}

#[test]
fn item_ids_increase() {
    let mut d = Database::new();
    assert_eq!(d.add_todo_item(1, String::from("a")), Ok(1));
    assert_eq!(d.add_todo_item(1, String::from("b")), Ok(2));
    d.delete_todo_item(1, 2).unwrap();
    assert_eq!(d.add_todo_item(1, String::from("c")), Ok(3));
    let items = d.get_todo_items(1);
    assert_eq!(items.iter().map(|i| i.id).collect::<Vec<_>>(), vec![1, 3]);
    assert!(d.get_todo_items(2).is_empty());
    assert_eq!(d.update_todo_item(1, 3, true), Ok(()));
    assert!(d.get_todo_items(1)[1].done);
}

#[test]
fn init_with_built_url_stores_state() {
    let mut l = logic();
    let url = String::from("https://provider.example/authorize?state=k");
    assert_eq!(l.github_init_with_url(String::from("k"), Some(url.clone()), NOW), Ok(url.clone()));
    assert_eq!(
        l.github_init_with_url(String::from("k"), Some(url), NOW),
        Err(ApiError::StoreFailure)
    );
    assert_eq!(
        l.github_init_with_url(String::from("m"), None, NOW),
        Err(ApiError::UpstreamFailure)
    );
    assert!(matches!(l.github_check_state(&String::from("m"), NOW), Err(ApiError::Unauthorized)));
    assert!(l.github_check_state(&String::from("k"), NOW).is_ok());
}

#[test]
fn session_valid_until_expiry_second() {
    let mut l = logic();
    assert!(l.issue_session_with(9, String::from("edge"), NOW).is_ok());
    assert_eq!(l.validate(&String::from("edge"), NOW + SESSION_LIFETIME_SECS), Ok(9));
    assert_eq!(
        l.validate(&String::from("edge"), NOW + SESSION_LIFETIME_SECS + 1),
        Err(ApiError::Unauthorized)
    );
}
