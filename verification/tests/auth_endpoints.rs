use chat_hub::Device;
use chat_hub::LoginData;
use chat_hub::LoginOutcome;
use chat_hub::RegisterError;
use chat_hub::RegisterOutcome;
use chat_hub::RegistrationData;
use chat_hub::User;
use chat_hub::check_login;
use chat_hub::device_for_login;
use chat_hub::login_status;
use chat_hub::register_status;
use chat_hub::register_user;
use chat_hub::session_for_login;
use chat_hub::validate_registration;

fn reg(username: &str, password: &str, repeat: &str, code: &str) -> RegistrationData {
    RegistrationData {
        username: username.to_string(),
        password: password.to_string(),
        repeat_password: repeat.to_string(),
        invitation_code: code.to_string(),
    }
}

#[test]
fn registration_rejects_empty_fields() {
    let r = register_user(&reg("", "pw", "pw", "inv"));
    assert!(matches!(r, RegisterOutcome::Rejected(RegisterError::EmptyField)));
    assert_eq!(register_status(&r), 400);
    let r = register_user(&reg("alice", "pw", "pw", ""));
    assert!(matches!(r, RegisterOutcome::Rejected(RegisterError::EmptyField)));
}

#[test]
fn registration_rejects_mismatched_passwords() {
    assert_eq!(
        validate_registration(&reg("alice", "pw1", "pw2", "inv")),
        Some(RegisterError::PasswordMismatch)
    );
    let r = register_user(&reg("alice", "pw1", "pw2", "inv"));
    assert!(matches!(r, RegisterOutcome::Rejected(RegisterError::PasswordMismatch)));
    assert_eq!(register_status(&r), 400);
}

#[test]
fn registration_then_login_succeeds_with_the_same_password() {
    // The produced hash is a real bcrypt hash: logging in with the
    // registered password matches it, and with any other password does not.
    let r = register_user(&reg("alice", "correct horse", "correct horse", "inv"));
    let user = match r {
        RegisterOutcome::Accepted(u) => u,
        _ => panic!("a valid registration is accepted"),
    };
    assert_eq!(user.username, "alice");
    assert_eq!(user.invitation_code, "inv");
    assert_ne!(user.password_hash, "correct horse");

    let good = LoginData { username: "alice".to_string(), password: "correct horse".to_string() };
    assert_eq!(check_login(&good, Some(&user)), LoginOutcome::Success);
    assert_eq!(login_status(&LoginOutcome::Success), 200);

    let bad = LoginData { username: "alice".to_string(), password: "wrong".to_string() };
    assert_eq!(check_login(&bad, Some(&user)), LoginOutcome::WrongPassword);
    assert_eq!(login_status(&LoginOutcome::WrongPassword), 401);
}

#[test]
fn login_rejects_empty_fields_and_unknown_users() {
    let empty = LoginData { username: "".to_string(), password: "pw".to_string() };
    assert_eq!(check_login(&empty, None), LoginOutcome::EmptyField);
    assert_eq!(login_status(&LoginOutcome::EmptyField), 400);

    let unknown = LoginData { username: "ghost".to_string(), password: "pw".to_string() };
    assert_eq!(check_login(&unknown, None), LoginOutcome::UnknownUser);
    assert_eq!(login_status(&LoginOutcome::UnknownUser), 401);
}

#[test]
fn a_malformed_stored_hash_matches_nothing() {
    let user = User {
        username: "alice".to_string(),
        password_hash: "not a bcrypt hash".to_string(),
        invitation_code: "inv".to_string(),
        user_uuid: 7,
    };
    let login = LoginData { username: "alice".to_string(), password: "anything".to_string() };
    assert_eq!(check_login(&login, Some(&user)), LoginOutcome::WrongPassword);
}

#[test]
fn login_reuses_a_known_device_and_creates_a_fresh_one_otherwise() {
    let known = Device { device_id: 11, user_uuid: 7, ip_address: "10.0.0.1".to_string() };
    let (d, created) = device_for_login(Some(known), 7, "10.0.0.1".to_string());
    assert!(!created);
    assert_eq!(d.device_id, 11);

    let (d, created) = device_for_login(None, 7, "10.0.0.2".to_string());
    assert!(created);
    assert_eq!(d.user_uuid, 7);
    assert_eq!(d.ip_address, "10.0.0.2");
}

#[test]
fn a_login_session_expires_one_lifetime_later() {
    let s = session_for_login(7, 11, 1000);
    assert_eq!(s.user_uuid, 7);
    assert_eq!(s.device_id, 11);
    assert_eq!(s.expires_at, Some(4600));
}
