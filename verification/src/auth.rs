//! Registration and login decisions for the external account endpoints.
//!
//! The storage collaborator looks accounts and devices up; credential
//! hashing is delegated to bcrypt. Everything decided here — which inputs
//! are rejected, with which outcome, and what record is built on success —
//! is stated exactly, over the named result of the bcrypt calls.

use vstd::prelude::*;

verus! {

/// A stored account. Identifiers the outside world writes as UUIDs are
/// carried as their 128-bit values.
pub struct User {
    pub username: String,
    pub password_hash: String,
    pub invitation_code: String,
    pub user_uuid: u128,
}

/// A device a user has been seen on.
pub struct Device {
    pub device_id: u128,
    pub user_uuid: u128,
    pub ip_address: String,
}

/// A login session, expiring at an epoch-seconds instant if at all.
pub struct Session {
    pub session_id: u128,
    pub user_uuid: u128,
    pub device_id: u128,
    pub expires_at: Option<u64>,
}

/// What a registration request carries.
pub struct RegistrationData {
    pub username: String,
    pub password: String,
    pub repeat_password: String,
    pub invitation_code: String,
}

/// What a login request carries.
pub struct LoginData {
    pub username: String,
    pub password: String,
}

/// Why a registration request was rejected before any hashing.
#[derive(Debug, Clone, Copy, PartialEq, Eq, Structural)]
pub enum RegisterError {
    /// Some required field is empty.
    EmptyField,
    /// The two password fields differ.
    PasswordMismatch,
}

/// What came of a registration request.
pub enum RegisterOutcome {
    /// The request is valid; the carried account is ready to be stored.
    Accepted(User),
    /// The request was rejected by validation.
    Rejected(RegisterError),
    /// The credential hasher failed; nothing was built.
    HashFailure,
}

/// What came of a login request.
#[derive(Debug, Clone, Copy, PartialEq, Eq, Structural)]
pub enum LoginOutcome {
    /// The password matches the stored account's hash.
    Success,
    /// Some required field is empty.
    EmptyField,
    /// No stored account carries the requested username.
    UnknownUser,
    /// The password does not match the stored hash.
    WrongPassword,
}

/// Whether bcrypt's `verify` accepts `password` against `hash_str`; a
/// function of the two arguments alone, with a malformed hash accepting
/// nothing.
pub uninterp spec fn bcrypt_matches(password: Seq<char>, hash_str: Seq<char>) -> bool;

/// Relies on bcrypt::verify: the result depends on the password and the
/// hash alone; an error (malformed hash) is taken as no match.
#[verifier::external_body]
fn bcrypt_verify(password: &str, hash_str: &str) -> (r: bool)
    ensures
        r == bcrypt_matches(password@, hash_str@),
{
    bcrypt::verify(password, hash_str).unwrap_or(false)
}

/// Relies on bcrypt::hash with the default cost: a produced hash is one
/// that bcrypt::verify accepts against exactly the hashed password (the
/// random salt varies the hash, not what it matches).
#[verifier::external_body]
fn bcrypt_hash(password: &str) -> (r: Option<String>)
    ensures
        r matches Some(h) ==> bcrypt_matches(password@, h@),
{
    bcrypt::hash(password, bcrypt::DEFAULT_COST).ok()
}

/// Relies on uuid::Uuid::new_v4: a random identifier; nothing is promised
/// of its value.
#[verifier::external_body]
fn fresh_uuid() -> u128 {
    uuid::Uuid::new_v4().as_u128()
}

/// All fields a registration must fill are non-empty.
pub open spec fn registration_filled(reg: RegistrationData) -> bool {
    &&& reg.username@.len() > 0
    &&& reg.password@.len() > 0
    &&& reg.repeat_password@.len() > 0
    &&& reg.invitation_code@.len() > 0
}

/// Validates a registration request: rejects it exactly when a field is
/// empty or the two password fields differ, empty fields reported first.
pub fn validate_registration(reg: &RegistrationData) -> (r: Option<RegisterError>)
    ensures
        match r {
            Some(RegisterError::EmptyField) => !registration_filled(*reg),
            Some(RegisterError::PasswordMismatch) => registration_filled(*reg) && reg.password@
                != reg.repeat_password@,
            None => registration_filled(*reg) && reg.password@ == reg.repeat_password@,
        },
{
    if reg.username.as_str().is_empty() || reg.password.as_str().is_empty()
        || reg.repeat_password.as_str().is_empty() || reg.invitation_code.as_str().is_empty() {
        return Some(RegisterError::EmptyField);
    }
    if !(reg.password == reg.repeat_password) {
        return Some(RegisterError::PasswordMismatch);
    }
    None
}

/// Builds the account a validated registration stores, from whatever the
/// credential hasher returned: the account carries the request's username
/// and invitation code, the produced hash — which matches the request's
/// password — and the given identifier; a hasher failure builds nothing.
pub fn finish_registration(reg: &RegistrationData, password_hash: Option<String>, user_uuid: u128)
    -> (r: RegisterOutcome)
    ensures
        match r {
            RegisterOutcome::Accepted(u) => {
                &&& password_hash matches Some(h) && u.password_hash@ == h@
                &&& u.username@ == reg.username@
                &&& u.invitation_code@ == reg.invitation_code@
                &&& u.user_uuid == user_uuid
            },
            RegisterOutcome::HashFailure => password_hash is None,
            RegisterOutcome::Rejected(_) => false,
        },
{
    match password_hash {
        None => RegisterOutcome::HashFailure,
        Some(h) => RegisterOutcome::Accepted(
            User {
                username: reg.username.clone(),
                password_hash: h,
                invitation_code: reg.invitation_code.clone(),
                user_uuid,
            },
        ),
    }
}

/// Decides a registration request. A request with an empty field or with
/// differing passwords is rejected with that reason and nothing else; on a
/// valid request the account is built under a fresh identifier unless the
/// credential hasher fails, and its hash matches the request's password.
pub fn register_user(reg: &RegistrationData) -> (r: RegisterOutcome)
    ensures
        match r {
            RegisterOutcome::Rejected(RegisterError::EmptyField) => !registration_filled(*reg),
            RegisterOutcome::Rejected(RegisterError::PasswordMismatch) => registration_filled(*reg)
                && reg.password@ != reg.repeat_password@,
            RegisterOutcome::HashFailure => registration_filled(*reg) && reg.password@
                == reg.repeat_password@,
            RegisterOutcome::Accepted(u) => {
                &&& registration_filled(*reg)
                &&& reg.password@ == reg.repeat_password@
                &&& u.username@ == reg.username@
                &&& u.invitation_code@ == reg.invitation_code@
                &&& bcrypt_matches(reg.password@, u.password_hash@)
            },
        },
{
    if let Some(e) = validate_registration(reg) {
        return RegisterOutcome::Rejected(e);
    }
    let h = bcrypt_hash(reg.password.as_str());
    finish_registration(reg, h, fresh_uuid())
}

/// Decides a login request against the account the storage collaborator
/// found, if any: empty fields are rejected first, an absent account next,
/// and otherwise the password is checked against the stored hash.
pub fn check_login(login: &LoginData, found: Option<&User>) -> (r: LoginOutcome)
    ensures
        ({
            let filled = login.username@.len() > 0 && login.password@.len() > 0;
            match r {
                LoginOutcome::EmptyField => !filled,
                LoginOutcome::UnknownUser => filled && found is None,
                LoginOutcome::WrongPassword => filled && (found matches Some(u)
                    && !bcrypt_matches(login.password@, u.password_hash@)),
                LoginOutcome::Success => filled && (found matches Some(u) && bcrypt_matches(
                    login.password@,
                    u.password_hash@,
                )),
            }
        }),
{
    if login.username.as_str().is_empty() || login.password.as_str().is_empty() {
        return LoginOutcome::EmptyField;
    }
    match found {
        None => LoginOutcome::UnknownUser,
        Some(u) => {
            if bcrypt_verify(login.password.as_str(), u.password_hash.as_str()) {
                LoginOutcome::Success
            } else {
                LoginOutcome::WrongPassword
            }
        },
    }
}

/// The device a login binds to: the one the storage collaborator found
/// for the peer's address, or a freshly identified one for that address
/// and user, to be stored. The flag says whether it is new.
pub fn device_for_login(found: Option<Device>, user_uuid: u128, ip_address: String) -> (r: (
    Device,
    bool,
))
    ensures
        match found {
            Some(d) => r.0 == d && !r.1,
            None => {
                &&& r.0.user_uuid == user_uuid
                &&& r.0.ip_address@ == ip_address@
                &&& r.1
            },
        },
{
    match found {
        Some(d) => (d, false),
        None => (Device { device_id: fresh_uuid(), user_uuid, ip_address }, true),
    }
}

/// How long a login session lasts, in seconds.
pub const SESSION_LIFETIME_SECS: u64 = 3600;

/// The session a successful login creates: bound to the user and device,
/// under a fresh identifier, expiring one lifetime after `now`.
pub fn session_for_login(user_uuid: u128, device_id: u128, now: u64) -> (r: Session)
    requires
        now + SESSION_LIFETIME_SECS <= u64::MAX,
    ensures
        r.user_uuid == user_uuid,
        r.device_id == device_id,
        r.expires_at == Some((now + SESSION_LIFETIME_SECS) as u64),
{
    Session {
        session_id: fresh_uuid(),
        user_uuid,
        device_id,
        expires_at: Some(now + SESSION_LIFETIME_SECS),
    }
}

/// The HTTP status the surrounding endpoint reports for a registration
/// outcome: success, validation failure, or internal failure.
pub fn register_status(r: &RegisterOutcome) -> (s: u16)
    ensures
        match r {
            RegisterOutcome::Accepted(_) => s == 200,
            RegisterOutcome::Rejected(_) => s == 400,
            RegisterOutcome::HashFailure => s == 500,
        },
{
    match r {
        RegisterOutcome::Accepted(_) => 200,
        RegisterOutcome::Rejected(_) => 400,
        RegisterOutcome::HashFailure => 500,
    }
}

/// The HTTP status the surrounding endpoint reports for a login outcome:
/// success, validation failure, or authentication failure.
pub fn login_status(r: &LoginOutcome) -> (s: u16)
    ensures
        match r {
            LoginOutcome::Success => s == 200,
            LoginOutcome::EmptyField => s == 400,
            LoginOutcome::UnknownUser => s == 401,
            LoginOutcome::WrongPassword => s == 401,
        },
{
    match r {
        LoginOutcome::Success => 200,
        LoginOutcome::EmptyField => 400,
        LoginOutcome::UnknownUser => 401,
        LoginOutcome::WrongPassword => 401,
    }
}

} // verus!
