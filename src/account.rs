//! Accounts: registration, login, password change and the session cookie.

use vstd::prelude::*;
use vstd::utf8::encode_utf8;

use crate::identity::{role_name, Identity, Role};

verus! {

/// Shortest accepted username, in bytes.
pub const MIN_USERNAME_BYTES: usize = 3;

/// Shortest accepted password, in bytes.
pub const MIN_PASSWORD_BYTES: usize = 8;

#[derive(Clone, Debug)]
pub struct RegisterRequest {
    pub name: String,
    pub username: String,
    pub password: String,
}

#[derive(Clone, Debug)]
pub struct LoginRequest {
    pub username: String,
    pub password: String,
}

#[derive(Clone, Debug)]
pub struct ChangePasswordRequest {
    pub current_password: String,
    pub new_password: String,
}

#[derive(Clone, Debug)]
pub struct AdminApproveRequest {
    pub user_id: String,
}

/// An emergency alert sent by a member.
#[derive(Clone, Debug)]
pub struct EmergencyRequest {
    pub message: String,
}

/// The body of most account replies.
#[derive(Clone, Debug)]
pub struct ApiResponse {
    pub success: bool,
    pub message: String,
}

/// An account as listed to administrators.
#[derive(Clone, Debug)]
pub struct UserInfo {
    pub id: String,
    pub username: String,
    pub name: String,
    pub role: String,
    pub approved: bool,
    pub needs_password_change: bool,
}

/// The reply to a session check.
#[derive(Clone, Debug)]
pub struct SessionData {
    pub user_id: String,
    pub username: String,
    pub name: String,
    pub role: String,
}

/// A stored account, as login reads it.
#[derive(Clone, Debug)]
pub struct UserRecord {
    pub id: String,
    pub name: String,
    pub password_hash: String,
    pub role: Role,
    pub approved: bool,
    pub needs_password_change: bool,
}

/// An account to be stored, awaiting approval.
#[derive(Clone, Debug)]
pub struct NewUser {
    pub id: String,
    pub username: String,
    pub name: String,
    pub password_hash: String,
}

#[derive(Clone, Copy, Debug, PartialEq, Eq, Structural)]
pub enum RegistrationError {
    UsernameTooShort,
    PasswordTooShort,
    UsernameTaken,
    /// The password could not be hashed.
    HashFailed,
}

#[derive(Clone, Copy, Debug, PartialEq, Eq, Structural)]
pub enum PasswordError {
    /// The current password does not match the stored hash.
    WrongPassword,
    /// The new password could not be hashed.
    HashFailed,
}

/// What a login attempt comes to.
#[derive(Clone, Debug)]
pub enum LoginOutcome {
    /// Unknown username or wrong password.
    Unauthorized,
    /// A member whose account is not approved yet.
    PendingApproval,
    /// A session may be opened for this identity.
    Granted(Identity),
}

/// Length of the UTF-8 encoding of `s`, as `str::len` gives it.
pub open spec fn byte_len(s: Seq<char>) -> usize {
    encode_utf8(s).len() as usize
}

/// The first rule of registration that `username` and `password` break.
pub open spec fn registration_fault(username: Seq<char>, password: Seq<char>) -> Option<
    RegistrationError,
> {
    if byte_len(username) < MIN_USERNAME_BYTES {
        Some(RegistrationError::UsernameTooShort)
    } else if byte_len(password) < MIN_PASSWORD_BYTES {
        Some(RegistrationError::PasswordTooShort)
    } else {
        None
    }
}

/// Whether bcrypt accepts `password` against the stored `hash`; a hash that
/// bcrypt cannot read accepts nothing.
pub uninterp spec fn bcrypt_accepts(password: Seq<char>, hash: Seq<char>) -> bool;

/// Relies on `bcrypt::verify`, with an unreadable hash taken as a mismatch.
#[verifier::external_body]
fn password_matches(password: &str, hash: &str) -> (r: bool)
    ensures
        r == bcrypt_accepts(password@, hash@),
{
    bcrypt::verify(password, hash).unwrap_or(false)
}

/// Relies on `bcrypt::hash` at `bcrypt::DEFAULT_COST`: a salted hash of
/// `password`, which `bcrypt::verify` accepts for that password (the salt
/// and cost are read back from the hash). The salt is random, so nothing
/// more is promised of the text; a failure of the random source gives `None`.
#[verifier::external_body]
fn hash_password(password: &str) -> (r: Option<String>)
    ensures
        r matches Some(h) ==> bcrypt_accepts(password@, h@),
{
    bcrypt::hash(password, bcrypt::DEFAULT_COST).ok()
}

/// What login decides for the stored account `user`, given whether the
/// password matched it.
pub open spec fn login_verdict(user: Option<UserRecord>, password_ok: bool) -> LoginOutcome {
    match user {
        None => LoginOutcome::Unauthorized,
        Some(u) => if !password_ok {
            LoginOutcome::Unauthorized
        } else if u.role == Role::Member && !u.approved {
            LoginOutcome::PendingApproval
        } else {
            LoginOutcome::Granted(Identity { id: u.id, display_name: u.name, role: u.role })
        },
    }
}

impl RegistrationError {
    /// The message shown to the user.
    pub fn message(&self) -> (r: String)
        ensures
            *self == RegistrationError::UsernameTooShort ==> r@
                == "L'identifiant doit contenir au moins 3 caractères"@,
            *self == RegistrationError::PasswordTooShort ==> r@
                == "Le mot de passe doit contenir au moins 8 caractères"@,
            *self == RegistrationError::UsernameTaken ==> r@ == "Cet identifiant est déjà pris"@,
            *self == RegistrationError::HashFailed ==> r@ == "Erreur interne"@,
    {
        match self {
            RegistrationError::UsernameTooShort => String::from_str(
                "L'identifiant doit contenir au moins 3 caractères",
            ),
            RegistrationError::PasswordTooShort => String::from_str(
                "Le mot de passe doit contenir au moins 8 caractères",
            ),
            RegistrationError::UsernameTaken => String::from_str("Cet identifiant est déjà pris"),
            RegistrationError::HashFailed => String::from_str("Erreur interne"),
        }
    }
}

/// Checks the length rules of a registration request.
pub fn check_registration(req: &RegisterRequest) -> (r: Result<(), RegistrationError>)
    ensures
        r is Ok <==> registration_fault(req.username@, req.password@) is None,
        r matches Err(e) ==> registration_fault(req.username@, req.password@) == Some(e),
{
    let username = req.username.as_str();
    let password = req.password.as_str();
    if username.len() < MIN_USERNAME_BYTES {
        return Err(RegistrationError::UsernameTooShort);
    }
    if password.len() < MIN_PASSWORD_BYTES {
        return Err(RegistrationError::PasswordTooShort);
    }
    Ok(())
}

/// Turns a registration request into an account to store: the length rules
/// first, then the username's availability (`username_taken`, as the store
/// reported it), then hashing. The new account gets a random id.
pub fn prepare_registration(req: RegisterRequest, username_taken: bool) -> (r: Result<
    NewUser,
    RegistrationError,
>)
    ensures
        registration_fault(req.username@, req.password@) matches Some(e) ==> r == Err::<
            NewUser,
            RegistrationError,
        >(e),
        registration_fault(req.username@, req.password@) is None && username_taken ==> r == Err::<
            NewUser,
            RegistrationError,
        >(RegistrationError::UsernameTaken),
        registration_fault(req.username@, req.password@) is None && !username_taken ==> (r is Ok
            || r == Err::<NewUser, RegistrationError>(RegistrationError::HashFailed)),
        r matches Ok(u) ==> u.username == req.username && u.name == req.name && bcrypt_accepts(
            req.password@,
            u.password_hash@,
        ),
{
    match check_registration(&req) {
        Err(e) => {
            return Err(e);
        },
        Ok(()) => {},
    }
    if username_taken {
        return Err(RegistrationError::UsernameTaken);
    }
    match hash_password(req.password.as_str()) {
        None => Err(RegistrationError::HashFailed),
        Some(password_hash) => Ok(
            NewUser {
                id: crate::clock::random_uuid(),
                username: req.username,
                name: req.name,
                password_hash,
            },
        ),
    }
}

/// Decides a login once the password check is known.
pub fn login_decision(user: Option<UserRecord>, password_ok: bool) -> (r: LoginOutcome)
    ensures
        r == login_verdict(user, password_ok),
{
    match user {
        None => LoginOutcome::Unauthorized,
        Some(u) => {
            if !password_ok {
                LoginOutcome::Unauthorized
            } else if u.role == Role::Member && !u.approved {
                LoginOutcome::PendingApproval
            } else {
                LoginOutcome::Granted(Identity { id: u.id, display_name: u.name, role: u.role })
            }
        },
    }
}

/// Decides a login of the stored account `user` (none when the username
/// is unknown) with `password`.
pub fn login(user: Option<UserRecord>, password: &str) -> (r: LoginOutcome)
    ensures
        r == login_verdict(
            user,
            user matches Some(u) && bcrypt_accepts(password@, u.password_hash@),
        ),
{
    let ok = match &user {
        None => false,
        Some(u) => password_matches(password, u.password_hash.as_str()),
    };
    login_decision(user, ok)
}

/// Checks `current_password` against the stored hash and hashes the new
/// password, which is returned.
pub fn change_password(current_hash: &str, req: &ChangePasswordRequest) -> (r: Result<String, PasswordError>)
    ensures
        r == Err::<String, PasswordError>(PasswordError::WrongPassword) <==> !bcrypt_accepts(
            req.current_password@,
            current_hash@,
        ),
        bcrypt_accepts(req.current_password@, current_hash@) ==> (r is Ok || r == Err::<
            String,
            PasswordError,
        >(PasswordError::HashFailed)),
        r matches Ok(h) ==> bcrypt_accepts(req.new_password@, h@),
{
    if !password_matches(req.current_password.as_str(), current_hash) {
        return Err(PasswordError::WrongPassword);
    }
    match hash_password(req.new_password.as_str()) {
        None => Err(PasswordError::HashFailed),
        Some(h) => Ok(h),
    }
}

/// The message of a successful login.
pub fn login_message(user: &UserRecord) -> (r: String)
    ensures
        user.needs_password_change ==> r@ == "Première connexion. Veuillez changer votre mot de passe."@,
        !user.needs_password_change ==> r@ == "Connecté en tant que "@ + user.name@,
{
    if user.needs_password_change {
        String::from_str("Première connexion. Veuillez changer votre mot de passe.")
    } else {
        let mut m = String::from_str("Connecté en tant que ");
        m.append(user.name.as_str());
        m
    }
}

/// Name of the cookie that carries a session of role `role`.
pub open spec fn cookie_name(role: Role) -> Seq<char> {
    match role {
        Role::Member => "nook_session"@,
        Role::Admin => "nook_admin"@,
    }
}

/// Lifetime of a session of role `role`, written in decimal.
pub open spec fn max_age_text(role: Role) -> Seq<char> {
    match role {
        Role::Member => "2592000"@,
        Role::Admin => "604800"@,
    }
}

/// The `Set-Cookie` value that hands session `token` of role `role` to the
/// browser, living as long as the session does.
pub open spec fn session_cookie_text(role: Role, token: Seq<char>) -> Seq<char> {
    cookie_name(role) + "="@ + token + "; HttpOnly; Path=/; SameSite=Strict; Max-Age="@
        + max_age_text(role)
}

/// The `Set-Cookie` value that erases the session cookie of role `role`.
pub open spec fn cleared_cookie_text(role: Role) -> Seq<char> {
    cookie_name(role) + "=; HttpOnly; Path=/; SameSite=Strict; Max-Age=0"@
}

/// Name of the cookie that carries a session of role `role`.
pub fn session_cookie_name(role: Role) -> (r: &'static str)
    ensures
        r@ == cookie_name(role),
{
    match role {
        Role::Member => "nook_session",
        Role::Admin => "nook_admin",
    }
}

/// The `Set-Cookie` value for session `token` of role `role`.
pub fn session_cookie(role: Role, token: &str) -> (r: String)
    ensures
        r@ == session_cookie_text(role, token@),
{
    let mut c = String::from_str(session_cookie_name(role));
    c.append("=");
    c.append(token);
    c.append("; HttpOnly; Path=/; SameSite=Strict; Max-Age=");
    match role {
        Role::Member => c.append("2592000"),
        Role::Admin => c.append("604800"),
    }
    c
}

/// The `Set-Cookie` value that logs a session of role `role` out.
pub fn cleared_cookie(role: Role) -> (r: String)
    ensures
        r@ == cleared_cookie_text(role),
{
    let mut c = String::from_str(session_cookie_name(role));
    c.append("=; HttpOnly; Path=/; SameSite=Strict; Max-Age=0");
    c
}

impl SessionData {
    /// The reply to a session check of `identity`, known as `username`.
    pub fn of(identity: &Identity, username: String) -> (r: SessionData)
        ensures
            r.user_id@ == identity.id@,
            r.username == username,
            r.name@ == identity.display_name@,
            r.role@ == role_name(identity.role),
    {
        SessionData {
            user_id: identity.id.clone(),
            username,
            name: identity.display_name.clone(),
            role: identity.role.name(),
        }
    }
}

} // verus!
