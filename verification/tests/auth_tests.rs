use fundverse::auth::{
    authenticate, build_claims, current_time, login, signup, verify_email, CredentialStore,
    TOKEN_TTL_SECS,
};
use fundverse::errors::ApiError;
use fundverse::models::{LoginData, SignupData, VerifyData};
use fundverse::otp::OtpVerifier;

fn signup_data(username: &str, email: &str, password: &str) -> SignupData {
    SignupData {
        username: username.to_string(),
        email: email.to_string(),
        password: password.to_string(),
    }
}

#[test]
fn signup_creates_unverified_account() {
    let mut store = CredentialStore::new();
    let mut otp = OtpVerifier::new();
    let (user, code) = signup(&mut store, &mut otp, &signup_data("alice", "a@x.com", "pw1"), 100)
        .expect("fresh signup succeeds");
    assert_eq!(user.id, 1);
    assert_eq!(user.username, "alice");
    assert_eq!(user.email, "a@x.com");
    assert!(!user.is_verified);
    assert_eq!(user.created_at, 100);
    // the password is stored only as bcrypt's 60-character hash string,
    // never as the plaintext
    assert_eq!(user.password_hash.len(), 60);
    assert_ne!(user.password_hash, "pw1");
    assert!((100000..=999998).contains(&code));
    assert_eq!(store.accounts.len(), 1);
}

#[test]
fn signup_duplicate_username_is_conflict() {
    let mut store = CredentialStore::new();
    let mut otp = OtpVerifier::new();
    signup(&mut store, &mut otp, &signup_data("alice", "a@x.com", "pw1"), 1).unwrap();
    let r = signup(&mut store, &mut otp, &signup_data("alice", "other@x.com", "pw2"), 2);
    assert_eq!(r.unwrap_err(), ApiError::Conflict);
    // no new account row was created
    assert_eq!(store.accounts.len(), 1);
}

#[test]
fn signup_duplicate_email_is_conflict() {
    let mut store = CredentialStore::new();
    let mut otp = OtpVerifier::new();
    signup(&mut store, &mut otp, &signup_data("alice", "a@x.com", "pw1"), 1).unwrap();
    let r = signup(&mut store, &mut otp, &signup_data("bob", "a@x.com", "pw2"), 2);
    assert_eq!(r.unwrap_err(), ApiError::Conflict);
    assert_eq!(store.accounts.len(), 1);
}

#[test]
fn verify_email_unknown_user_is_not_found() {
    let mut store = CredentialStore::new();
    let mut otp = OtpVerifier::new();
    let form = VerifyData { email: "ghost@x.com".to_string(), otp: "123456".to_string() };
    assert_eq!(verify_email(&mut store, &mut otp, &form), Err(ApiError::NotFound));
}

#[test]
fn verify_email_flips_flag_once() {
    let mut store = CredentialStore::new();
    let mut otp = OtpVerifier::new();
    let (_, code) = signup(&mut store, &mut otp, &signup_data("alice", "a@x.com", "pw1"), 1)
        .unwrap();
    let form = VerifyData { email: "a@x.com".to_string(), otp: format!("{}", code) };
    assert_eq!(verify_email(&mut store, &mut otp, &form), Ok(()));
    assert!(store.accounts[0].is_verified);
    // the code was consumed on the successful attempt: a second submission
    // of the very same code fails
    assert_eq!(
        verify_email(&mut store, &mut otp, &form),
        Err(ApiError::InvalidCredential)
    );
    // and the account stays verified (the flag is monotonic)
    assert!(store.accounts[0].is_verified);
}

#[test]
fn verify_email_wrong_code_consumes_entry() {
    let mut store = CredentialStore::new();
    let mut otp = OtpVerifier::new();
    let (_, code) = signup(&mut store, &mut otp, &signup_data("alice", "a@x.com", "pw1"), 1)
        .unwrap();
    let wrong = VerifyData { email: "a@x.com".to_string(), otp: format!("{}", code + 1) };
    assert_eq!(
        verify_email(&mut store, &mut otp, &wrong),
        Err(ApiError::InvalidCredential)
    );
    assert!(!store.accounts[0].is_verified);
    // the failed attempt removed the entry, so even the right code now fails
    let right = VerifyData { email: "a@x.com".to_string(), otp: format!("{}", code) };
    assert_eq!(
        verify_email(&mut store, &mut otp, &right),
        Err(ApiError::InvalidCredential)
    );
    assert!(!store.accounts[0].is_verified);
}

#[test]
fn verify_email_accepts_surrounding_whitespace() {
    let mut store = CredentialStore::new();
    let mut otp = OtpVerifier::new();
    let (_, code) = signup(&mut store, &mut otp, &signup_data("alice", "a@x.com", "pw1"), 1)
        .unwrap();
    let form = VerifyData { email: "a@x.com".to_string(), otp: format!("  {}\n", code) };
    assert_eq!(verify_email(&mut store, &mut otp, &form), Ok(()));
    assert!(store.accounts[0].is_verified);
}

#[test]
fn login_unverified_account_fails_with_correct_password() {
    let mut store = CredentialStore::new();
    let mut otp = OtpVerifier::new();
    signup(&mut store, &mut otp, &signup_data("alice", "a@x.com", "pw1"), 1).unwrap();
    let form = LoginData { username: "alice".to_string(), password: "pw1".to_string() };
    let secret = "server-secret".to_string();
    assert_eq!(login(&store, &form, 1000, &secret), Err(ApiError::InvalidCredential));
}

#[test]
fn login_unknown_user_fails() {
    let store = CredentialStore::new();
    let form = LoginData { username: "nobody".to_string(), password: "pw".to_string() };
    let secret = "server-secret".to_string();
    assert_eq!(login(&store, &form, 1000, &secret), Err(ApiError::InvalidCredential));
}

fn signed_up_and_verified(store: &mut CredentialStore, otp: &mut OtpVerifier) {
    let (_, code) = signup(store, otp, &signup_data("alice", "a@x.com", "pw1"), 1).unwrap();
    let form = VerifyData { email: "a@x.com".to_string(), otp: format!("{}", code) };
    verify_email(store, otp, &form).unwrap();
}

#[test]
fn login_wrong_password_fails() {
    let mut store = CredentialStore::new();
    let mut otp = OtpVerifier::new();
    signed_up_and_verified(&mut store, &mut otp);
    let form = LoginData { username: "alice".to_string(), password: "pw1x".to_string() };
    let secret = "server-secret".to_string();
    assert_eq!(login(&store, &form, 1000, &secret), Err(ApiError::InvalidCredential));
}

#[test]
fn signup_verify_login_scenario() {
    let mut store = CredentialStore::new();
    let mut otp = OtpVerifier::new();
    let (_, code) = signup(&mut store, &mut otp, &signup_data("alice", "a@x.com", "pw1"), 1)
        .unwrap();
    // a wrong code fails and leaves the account unverified (and consumes
    // the outstanding entry, so a fresh code must be issued)
    let wrong = VerifyData { email: "a@x.com".to_string(), otp: format!("{}", code + 1) };
    assert!(verify_email(&mut store, &mut otp, &wrong).is_err());
    assert!(!store.accounts[0].is_verified);
    let email = "a@x.com".to_string();
    let code2 = fundverse::otp::issue(&mut otp, &email);
    // the correct code succeeds and flips the flag
    let right = VerifyData { email: email.clone(), otp: format!("{}", code2) };
    assert_eq!(verify_email(&mut store, &mut otp, &right), Ok(()));
    assert!(store.accounts[0].is_verified);
    // login with the right password now succeeds and returns a token
    let secret = "server-secret".to_string();
    let good = LoginData { username: "alice".to_string(), password: "pw1".to_string() };
    let token = login(&store, &good, 1000, &secret).expect("verified login succeeds");
    assert!(!token.is_empty());
    // login with a near-miss password always fails
    let bad = LoginData { username: "alice".to_string(), password: "pw1x".to_string() };
    assert_eq!(login(&store, &bad, 1000, &secret), Err(ApiError::InvalidCredential));
}

#[test]
fn login_token_carries_signed_claims() {
    let mut store = CredentialStore::new();
    let mut otp = OtpVerifier::new();
    signed_up_and_verified(&mut store, &mut otp);
    let now = current_time();
    let secret = "server-secret".to_string();
    let form = LoginData { username: "alice".to_string(), password: "pw1".to_string() };
    let token = login(&store, &form, now, &secret).unwrap();
    // the token is a real HS256 token over the claim set, not the input
    // handed back: decode it with the same secret and check each claim
    let decoded = jsonwebtoken::decode::<serde_json::Value>(
        &token,
        &jsonwebtoken::DecodingKey::from_secret(secret.as_bytes()),
        &jsonwebtoken::Validation::new(jsonwebtoken::Algorithm::HS256),
    )
    .expect("token decodes under the same secret");
    assert_eq!(decoded.claims.get("sub").and_then(|v| v.as_u64()), Some(1));
    assert_eq!(
        decoded.claims.get("username").and_then(|v| v.as_str()),
        Some("alice")
    );
    assert_eq!(
        decoded.claims.get("exp").and_then(|v| v.as_u64()),
        Some(now + TOKEN_TTL_SECS)
    );
    // a different secret refuses the token
    assert!(jsonwebtoken::decode::<serde_json::Value>(
        &token,
        &jsonwebtoken::DecodingKey::from_secret(b"other-secret"),
        &jsonwebtoken::Validation::new(jsonwebtoken::Algorithm::HS256),
    )
    .is_err());
}

#[test]
fn authenticate_returns_the_account() {
    let mut store = CredentialStore::new();
    let mut otp = OtpVerifier::new();
    signed_up_and_verified(&mut store, &mut otp);
    let form = LoginData { username: "alice".to_string(), password: "pw1".to_string() };
    let user = authenticate(&store, &form).unwrap();
    assert_eq!(user.id, 1);
    assert_eq!(user.username, "alice");
    assert!(user.is_verified);
}

#[test]
fn build_claims_expiry_is_one_day_out() {
    let mut store = CredentialStore::new();
    let mut otp = OtpVerifier::new();
    signed_up_and_verified(&mut store, &mut otp);
    let user = &store.accounts[0];
    let claims = build_claims(user, 5_000);
    assert_eq!(claims.sub, user.id);
    assert_eq!(claims.username, user.username);
    assert_eq!(claims.exp, 5_000 + 86_400);
}
