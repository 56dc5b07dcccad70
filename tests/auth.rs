use nook::account::{
    change_password, check_registration, cleared_cookie, login, login_decision, login_message,
    prepare_registration, session_cookie, session_cookie_name, ChangePasswordRequest, LoginOutcome,
    PasswordError, RegisterRequest, RegistrationError, SessionData, UserRecord,
};
use nook::cookie::get_cookie;
use nook::hub::Hub;
use nook::registry::Registry;
use nook::identity::{Identity, Role};
use nook::session::{
    session_lifetime, AuthError, Session, SessionAuthority, SessionError, ADMIN_SESSION_SECS,
    MEMBER_SESSION_SECS,
};

fn s(x: &str) -> String {
    x.to_string()
}

fn identity(id: &str, role: Role) -> Identity {
    Identity { id: s(id), display_name: s("Name"), role }
}

fn record(hash: &str, role: Role, approved: bool) -> UserRecord {
    UserRecord {
        id: s("u1"),
        name: s("Alice"),
        password_hash: s(hash),
        role,
        approved,
        needs_password_change: false,
    }
}

#[test]
fn lifetimes_follow_the_role() {
    assert_eq!(session_lifetime(Role::Member), 30 * 24 * 3600);
    assert_eq!(session_lifetime(Role::Admin), 7 * 24 * 3600);
    assert_eq!(MEMBER_SESSION_SECS, 2592000);
    assert_eq!(ADMIN_SESSION_SECS, 604800);
}

#[test]
fn token_is_valid_until_expiry() {
    let mut auth = SessionAuthority::new();
    auth.create_with_token(identity("m1", Role::Member), s("tok"), 1000).unwrap();
    let expiry = 1000 + MEMBER_SESSION_SECS;
    let first = auth.validate("tok", 1000).unwrap();
    assert_eq!(first.id, "m1");
    let later = auth.validate("tok", expiry - 1).unwrap();
    assert_eq!(later.id, "m1");
    assert_eq!(later.role, Role::Member);
    assert_eq!(auth.validate("tok", expiry).err(), Some(AuthError::Unauthenticated));
}

#[test]
fn expired_token_is_refused_and_swept() {
    let mut auth = SessionAuthority::new();
    auth.create_with_token(identity("a1", Role::Admin), s("adm"), 0).unwrap();
    auth.create_with_token(identity("m1", Role::Member), s("mem"), 0).unwrap();
    assert_eq!(auth.len(), 2);
    assert!(auth.validate("adm", ADMIN_SESSION_SECS).is_err());
    assert_eq!(auth.len(), 1);
    assert!(auth.validate("adm", 0).is_err());
    assert_eq!(auth.validate("mem", ADMIN_SESSION_SECS).unwrap().id, "m1");
}

#[test]
fn unknown_token_is_refused() {
    let mut auth = SessionAuthority::new();
    auth.create_with_token(identity("m1", Role::Member), s("tok"), 0).unwrap();
    assert!(auth.validate("other", 0).is_err());
    assert!(auth.validate("", 0).is_err());
    assert_eq!(auth.len(), 1);
}

#[test]
fn tokens_are_unique() {
    let mut auth = SessionAuthority::new();
    auth.create_with_token(identity("m1", Role::Member), s("tok"), 0).unwrap();
    assert_eq!(
        auth.create_with_token(identity("m2", Role::Member), s("tok"), 5),
        Err(SessionError::DuplicateToken)
    );
    assert_eq!(auth.validate("tok", 5).unwrap().id, "m1");
}

#[test]
fn expiry_must_fit_the_clock() {
    let mut auth = SessionAuthority::new();
    assert_eq!(
        auth.create_with_token(identity("m1", Role::Member), s("tok"), i64::MAX - 10),
        Err(SessionError::ClockOutOfRange)
    );
    assert_eq!(auth.len(), 0);
}

#[test]
fn created_sessions_get_fresh_tokens() {
    let mut auth = SessionAuthority::new();
    let t1 = auth.create(identity("m1", Role::Member), 100).unwrap();
    let t2 = auth.create(identity("a1", Role::Admin), 100).unwrap();
    assert_ne!(t1, t2);
    assert_eq!(t1.len(), 36);
    assert_eq!(auth.validate(&t1, 100).unwrap().id, "m1");
    assert_eq!(auth.validate(&t2, 100 + ADMIN_SESSION_SECS - 1).unwrap().role, Role::Admin);
    assert!(auth.validate(&t2, 100 + ADMIN_SESSION_SECS).is_err());
}

#[test]
fn live_token_validates_now() {
    let mut auth = SessionAuthority::new();
    let t = auth.create(identity("m1", Role::Member), 0).unwrap();
    assert!(auth.validate_now(&t).is_err());
    let now = std::time::SystemTime::now()
        .duration_since(std::time::UNIX_EPOCH)
        .unwrap()
        .as_secs() as i64;
    let t = auth.create(identity("m2", Role::Member), now).unwrap();
    assert_eq!(auth.validate_now(&t).unwrap().id, "m2");
}

#[test]
fn revoked_token_is_refused() {
    let mut auth = SessionAuthority::new();
    auth.create_with_token(identity("m1", Role::Member), s("tok"), 0).unwrap();
    assert!(auth.revoke("tok"));
    assert!(!auth.revoke("tok"));
    assert!(auth.validate("tok", 1).is_err());
}

#[test]
fn cookie_is_found_among_others() {
    let h = vec![s("theme=dark; nook_session=abc123;  lang=fr")];
    assert_eq!(get_cookie(&h, "nook_session").as_deref(), Some("abc123"));
    assert_eq!(get_cookie(&h, "lang").as_deref(), Some("fr"));
    assert_eq!(get_cookie(&h, "nook_admin"), None);
}

#[test]
fn cookie_is_searched_over_all_headers() {
    let h = vec![s("a=1"), s("  nook_admin=xyz  "), s("nook_admin=later")];
    assert_eq!(get_cookie(&h, "nook_admin").as_deref(), Some("xyz"));
    assert_eq!(get_cookie(&Vec::new(), "nook_admin"), None);
}

#[test]
fn cookie_value_stops_at_the_next_equals() {
    let h = vec![s("nook_session=ab=cd")];
    assert_eq!(get_cookie(&h, "nook_session").as_deref(), Some("ab"));
    let h = vec![s("nook_session=")];
    assert_eq!(get_cookie(&h, "nook_session").as_deref(), Some(""));
}

#[test]
fn cookie_name_must_match_whole() {
    let h = vec![s("nook_session_old=1; xnook_session=2; nook_session")];
    assert_eq!(get_cookie(&h, "nook_session"), None);
    let h = vec![s("\tnook_session=tab\u{a0}")];
    assert_eq!(get_cookie(&h, "nook_session").as_deref(), Some("tab"));
}

#[test]
fn registration_lengths_are_checked() {
    let req = |u: &str, p: &str| RegisterRequest { name: s("N"), username: s(u), password: s(p) };
    assert_eq!(check_registration(&req("ab", "longenough")), Err(RegistrationError::UsernameTooShort));
    assert_eq!(check_registration(&req("abc", "short")), Err(RegistrationError::PasswordTooShort));
    assert_eq!(check_registration(&req("abc", "12345678")), Ok(()));
    assert_eq!(check_registration(&req("é", "12345678")), Err(RegistrationError::UsernameTooShort));
    assert_eq!(check_registration(&req("éa", "12345678")), Ok(()));
    assert_eq!(
        RegistrationError::UsernameTooShort.message(),
        "L'identifiant doit contenir au moins 3 caractères"
    );
    assert_eq!(RegistrationError::UsernameTaken.message(), "Cet identifiant est déjà pris");
}

#[test]
fn registration_prepares_a_hashed_account() {
    let req = RegisterRequest { name: s("Bob"), username: s("bobby"), password: s("hunter22") };
    assert_eq!(prepare_registration(req.clone(), true).err(), Some(RegistrationError::UsernameTaken));
    let short = RegisterRequest { password: s("x"), ..req.clone() };
    assert_eq!(prepare_registration(short, false).err(), Some(RegistrationError::PasswordTooShort));
    let user = prepare_registration(req, false).unwrap();
    assert_eq!(user.username, "bobby");
    assert_eq!(user.name, "Bob");
    assert_ne!(user.password_hash, "hunter22");
    assert!(bcrypt::verify("hunter22", &user.password_hash).unwrap());
    assert_eq!(user.id.len(), 36);
}

#[test]
fn login_decisions() {
    assert!(matches!(login_decision(None, true), LoginOutcome::Unauthorized));
    assert!(matches!(
        login_decision(Some(record("h", Role::Member, true)), false),
        LoginOutcome::Unauthorized
    ));
    assert!(matches!(
        login_decision(Some(record("h", Role::Member, false)), true),
        LoginOutcome::PendingApproval
    ));
    match login_decision(Some(record("h", Role::Admin, false)), true) {
        LoginOutcome::Granted(id) => {
            assert_eq!(id.id, "u1");
            assert_eq!(id.display_name, "Alice");
            assert_eq!(id.role, Role::Admin);
        }
        _ => panic!("admin login refused"),
    }
}

#[test]
fn login_checks_the_password_hash() {
    let hash = bcrypt::hash("secret-pw", 4).unwrap();
    assert!(matches!(login(Some(record(&hash, Role::Member, true)), "secret-pw"), LoginOutcome::Granted(_)));
    assert!(matches!(login(Some(record(&hash, Role::Member, true)), "wrong-pw"), LoginOutcome::Unauthorized));
    assert!(matches!(login(Some(record("not a hash", Role::Member, true)), "x"), LoginOutcome::Unauthorized));
    assert!(matches!(login(None, "secret-pw"), LoginOutcome::Unauthorized));
}

#[test]
fn password_change_needs_the_current_password() {
    let hash = bcrypt::hash("old-password", 4).unwrap();
    let bad = ChangePasswordRequest { current_password: s("nope"), new_password: s("new-password") };
    assert_eq!(change_password(&hash, &bad), Err(PasswordError::WrongPassword));
    let good = ChangePasswordRequest { current_password: s("old-password"), new_password: s("new-password") };
    let new_hash = change_password(&hash, &good).unwrap();
    assert!(bcrypt::verify("new-password", &new_hash).unwrap());
}

#[test]
fn login_messages() {
    let mut u = record("h", Role::Member, true);
    assert_eq!(login_message(&u), "Connecté en tant que Alice");
    u.needs_password_change = true;
    assert_eq!(login_message(&u), "Première connexion. Veuillez changer votre mot de passe.");
}

#[test]
fn session_cookies() {
    assert_eq!(session_cookie_name(Role::Member), "nook_session");
    assert_eq!(
        session_cookie(Role::Member, "t0k"),
        "nook_session=t0k; HttpOnly; Path=/; SameSite=Strict; Max-Age=2592000"
    );
    assert_eq!(
        session_cookie(Role::Admin, "t0k"),
        "nook_admin=t0k; HttpOnly; Path=/; SameSite=Strict; Max-Age=604800"
    );
    assert_eq!(cleared_cookie(Role::Admin), "nook_admin=; HttpOnly; Path=/; SameSite=Strict; Max-Age=0");
    let h = vec![session_cookie(Role::Admin, "zz")];
    assert_eq!(get_cookie(&h, "nook_admin").as_deref(), Some("zz"));
}

#[test]
fn roles_by_name() {
    assert_eq!(Role::parse("member"), Some(Role::Member));
    assert_eq!(Role::parse("admin"), Some(Role::Admin));
    assert_eq!(Role::parse("Admin"), None);
    assert_eq!(Role::Admin.name(), "admin");
    let d = SessionData::of(&identity("a1", Role::Admin), s("root"));
    assert_eq!(d.user_id, "a1");
    assert_eq!(d.username, "root");
    assert_eq!(d.name, "Name");
    assert_eq!(d.role, "admin");
}

fn upgrade(auth: &mut SessionAuthority, hub: &mut Hub, reg: &mut Registry, cookies: &[&str], now: i64) -> bool {
    let headers: Vec<String> = cookies.iter().map(|c| c.to_string()).collect();
    match auth.authenticate(&headers, Role::Member, now) {
        Ok(id) => {
            hub.join(1, &id.id, &s("conv1")).unwrap();
            reg.register(&id.id, 2).unwrap();
            true
        }
        Err(AuthError::Unauthenticated) => false,
    }
}

#[test]
fn expired_token_rejects_the_upgrade() {
    let mut auth = SessionAuthority::new();
    let mut hub = Hub::new();
    let mut reg = Registry::new();
    auth.create_with_token(identity("m1", Role::Member), s("old"), 0).unwrap();
    assert!(!upgrade(&mut auth, &mut hub, &mut reg, &["nook_session=old"], MEMBER_SESSION_SECS));
    assert_eq!(hub.subscriber_count(&s("conv1")), 0);
    assert_eq!(reg.connection_of(&s("m1")), None);
    assert!(!upgrade(&mut auth, &mut hub, &mut reg, &[], 0));
    assert_eq!(hub.subscriber_count(&s("conv1")), 0);
}

#[test]
fn live_token_admits_the_upgrade() {
    let mut auth = SessionAuthority::new();
    let mut hub = Hub::new();
    let mut reg = Registry::new();
    auth.create_with_token(identity("m1", Role::Member), s("tok"), 0).unwrap();
    assert!(upgrade(&mut auth, &mut hub, &mut reg, &["a=b; nook_session=tok"], 10));
    assert_eq!(hub.subscriber_count(&s("conv1")), 1);
    assert_eq!(reg.connection_of(&s("m1")), Some(2));
}

#[test]
fn session_cookies_are_tried_in_order() {
    let mut auth = SessionAuthority::new();
    auth.create_with_token(identity("m1", Role::Member), s("mtok"), 0).unwrap();
    auth.create_with_token(identity("a1", Role::Admin), s("atok"), 0).unwrap();
    let both = vec![s("nook_session=mtok; nook_admin=atok")];
    assert_eq!(auth.authenticate(&both, Role::Admin, 1).unwrap().id, "a1");
    assert_eq!(auth.authenticate(&both, Role::Member, 1).unwrap().id, "m1");
    let admin_only = vec![s("nook_admin=atok")];
    assert_eq!(auth.authenticate(&admin_only, Role::Member, 1).unwrap().id, "a1");
    let stale_first = vec![s("nook_session=gone; nook_admin=atok")];
    assert!(auth.authenticate(&stale_first, Role::Member, 1).is_err());
    assert!(auth.authenticate(&vec![s("other=1")], Role::Member, 1).is_err());
}

#[test]
fn role_authentication_reads_only_that_role_cookie() {
    let mut auth = SessionAuthority::new();
    auth.create_with_token(identity("a1", Role::Admin), s("atok"), 0).unwrap();
    auth.create_with_token(identity("m1", Role::Member), s("mtok"), 0).unwrap();
    let admin_as_member = vec![s("nook_session=atok")];
    assert!(auth.authenticate_role(&admin_as_member, Role::Admin, 1).is_err());
    assert!(auth.authenticate_role(&admin_as_member, Role::Member, 1).is_err());
    let member_as_admin = vec![s("nook_admin=mtok")];
    assert!(auth.authenticate_role(&member_as_admin, Role::Admin, 1).is_err());
    let both = vec![s("nook_session=mtok; nook_admin=atok")];
    assert_eq!(auth.authenticate_role(&both, Role::Admin, 1).unwrap().id, "a1");
    assert_eq!(auth.authenticate_role(&both, Role::Member, 1).unwrap().id, "m1");
    assert!(auth.authenticate_role(&both, Role::Admin, ADMIN_SESSION_SECS).is_err());
}

#[test]
fn kept_sessions_are_restored() {
    let mut auth = SessionAuthority::new();
    let kept = Session { token: s("old"), identity: identity("m1", Role::Member), created_at: 5, expires_at: 50 };
    assert_eq!(auth.restore(kept.clone()), Ok(()));
    assert_eq!(auth.restore(kept), Err(SessionError::DuplicateToken));
    assert_eq!(auth.validate("old", 49).unwrap().id, "m1");
    assert!(auth.validate("old", 50).is_err());
}
