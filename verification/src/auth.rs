//! The identity subsystem: account creation with uniqueness checks and
//! one-way password hashing, one-time-code email verification, and
//! credential-based login issuing a signed, time-limited bearer token.
//!
//! The account store is modelled in memory with explicit invariants:
//! usernames and emails are globally unique, ids are assigned in strictly
//! increasing order, and `is_verified` only ever flips from false to true.

use crate::errors::ApiError;
use crate::models::{LoginData, SignupData, User, VerifyData};
use crate::otp::{otp_lookup, verify_outcome, OtpVerifier};
use vstd::prelude::*;

verus! {

/// How long an issued session token stays valid, in seconds.
pub const TOKEN_TTL_SECS: u64 = 86400;

/// The signed payload of a session token: subject id, username, expiry
/// instant (seconds since the epoch). Never persisted server-side.
pub struct Claims {
    pub sub: u64,
    pub username: String,
    pub exp: u64,
}

/// The store of account records.
pub struct CredentialStore {
    pub accounts: Vec<User>,
    pub next_id: u64,
}

/// Some account already carries this username.
pub open spec fn username_taken(accounts: Seq<User>, username: Seq<char>) -> bool {
    exists|i: int| 0 <= i < accounts.len() && accounts[i].username@ == username
}

/// Some account already carries this email.
pub open spec fn email_taken(accounts: Seq<User>, email: Seq<char>) -> bool {
    exists|i: int| 0 <= i < accounts.len() && accounts[i].email@ == email
}

/// The credentials name an account that may log in: the username is on
/// file, the account is verified, and the password matches the stored hash.
pub open spec fn login_accepted(accounts: Seq<User>, username: Seq<char>, password: Seq<char>) -> bool {
    exists|i: int|
        0 <= i < accounts.len() && accounts[i].username@ == username && accounts[i].is_verified
            && bcrypt_accepts(password, accounts[i].password_hash@)
}

impl CredentialStore {
    /// Usernames and emails are each globally unique, and ids are assigned
    /// in strictly increasing order below `next_id`.
    pub open spec fn wf(self) -> bool {
        (forall|i: int, j: int|
            0 <= i < j < self.accounts@.len() ==> self.accounts@[i].username@
                != self.accounts@[j].username@ && self.accounts@[i].email@
                != self.accounts@[j].email@ && self.accounts@[i].id < self.accounts@[j].id)
            && (forall|i: int|
            0 <= i < self.accounts@.len() ==> #[trigger] self.accounts@[i].id < self.next_id)
    }

    pub fn new() -> (r: Self)
        ensures
            r.wf(),
            r.accounts@.len() == 0,
            r.next_id == 1,
    {
        CredentialStore { accounts: Vec::new(), next_id: 1 }
    }
}

/// Whether bcrypt's check of `password` against `hash` succeeds: the
/// outcome of `bcrypt::verify`, a deterministic function of the two
/// arguments (the salt is read back out of the hash), with a malformed
/// hash counting as a mismatch.
pub uninterp spec fn bcrypt_accepts(password: Seq<char>, hash: Seq<char>) -> bool;

/// The token that HS256 signing produces for the given claims and secret:
/// deterministic in its arguments (base64 of the header and payload,
/// HMAC-SHA256 of the two under the secret).
pub uninterp spec fn jwt_of(sub: u64, username: Seq<char>, exp: u64, secret: Seq<char>) -> Seq<char>;

/// Relies on bcrypt::hash with the default cost: on success the result is
/// a salted hash that bcrypt::verify accepts for the same password (verify
/// re-reads the salt and cost from the hash and recomputes it), formatted
/// as bcrypt's fixed 60-ASCII-character hash string; it fails only if the
/// operating system's randomness is unavailable.
#[verifier::external_body]
fn hash_password(password: &String) -> (r: Result<String, bcrypt::BcryptError>)
    ensures
        r is Ok ==> bcrypt_accepts(password@, r->Ok_0@),
        r is Ok ==> r->Ok_0@.len() == 60,
{
    bcrypt::hash(password, bcrypt::DEFAULT_COST)
}

/// Relies on bcrypt::verify: a deterministic check of the password against
/// the stored hash; an error (malformed hash) counts as a mismatch.
#[verifier::external_body]
fn check_password(password: &String, hash: &String) -> (r: bool)
    ensures
        r == bcrypt_accepts(password@, hash@),
{
    bcrypt::verify(password, hash).unwrap_or(false)
}

/// Relies on jsonwebtoken::encode with the default (HS256) header and a
/// symmetric secret: the token is the deterministic HS256 signature of
/// exactly these claims under this secret. This call cannot fail: the key
/// family built by from_secret matches the header's algorithm, and the
/// serialization of a string-keyed object payload is infallible, so the
/// unwrap never fires.
#[verifier::external_body]
fn sign_claims(claims: &Claims, secret: &String) -> (r: String)
    ensures
        r@ == jwt_of(claims.sub, claims.username@, claims.exp, secret@),
{
    let mut payload = serde_json::Map::new();
    payload.insert("sub".to_string(), serde_json::Value::from(claims.sub));
    payload.insert("username".to_string(), serde_json::Value::from(claims.username.as_str()));
    payload.insert("exp".to_string(), serde_json::Value::from(claims.exp));
    jsonwebtoken::encode(
        &jsonwebtoken::Header::default(),
        &serde_json::Value::Object(payload),
        &jsonwebtoken::EncodingKey::from_secret(secret.as_bytes()),
    )
    .unwrap()
}

/// The error type of bcrypt, carried through the hashing wrapper.
#[verifier::external_type_specification]
#[verifier::external_body]
pub struct ExBcryptError(bcrypt::BcryptError);

/// Relies on chrono::Utc::now: the current instant, as seconds since the
/// epoch. Nothing is assumed of the value.
#[verifier::external_body]
fn unix_now() -> (r: i64) {
    chrono::Utc::now().timestamp()
}

/// The current time as an unsigned second count. The signed value from the
/// wrapper is mapped to zero when negative, keeping the conversion total
/// over whatever the wrapper returns; the bound on the result is what lets
/// a session expiry be added without overflow.
pub fn current_time() -> (r: u64)
    ensures
        r <= i64::MAX as u64,
{
    let t = unix_now();
    if t < 0 {
        0
    } else {
        t as u64
    }
}

fn find_by_username(accounts: &Vec<User>, username: &String) -> (r: Option<usize>)
    ensures
        match r {
            Option::Some(i) => i < accounts@.len() && accounts@[i as int].username@ == username@,
            Option::None => !username_taken(accounts@, username@),
        },
{
    let mut i: usize = 0;
    while i < accounts.len()
        invariant
            i <= accounts@.len(),
            forall|k: int| 0 <= k < i ==> accounts@[k].username@ != username@,
        decreases accounts@.len() - i,
    {
        if accounts[i].username == *username {
            return Some(i);
        }
        i += 1;
    }
    None
}

fn find_by_email(accounts: &Vec<User>, email: &String) -> (r: Option<usize>)
    ensures
        match r {
            Option::Some(i) => i < accounts@.len() && accounts@[i as int].email@ == email@,
            Option::None => !email_taken(accounts@, email@),
        },
{
    let mut i: usize = 0;
    while i < accounts.len()
        invariant
            i <= accounts@.len(),
            forall|k: int| 0 <= k < i ==> accounts@[k].email@ != email@,
        decreases accounts@.len() - i,
    {
        if accounts[i].email == *email {
            return Some(i);
        }
        i += 1;
    }
    None
}

/// Account creation. If the username or the email is already on file the
/// result is `Conflict` and nothing changes. Otherwise a new account is
/// inserted, unverified, with the password stored only as a salted one-way
/// hash — bcrypt's fixed 60-character hash string, so never the plaintext
/// of a password of any other length — and a fresh one-time code is
/// issued for the email; the code is
/// returned so the caller can dispatch it out of band (a dispatch failure
/// must not fail the signup). A hashing failure surfaces as
/// `StorageFailure` and changes nothing.
pub fn signup(
    store: &mut CredentialStore,
    otp: &mut OtpVerifier,
    form: &SignupData,
    now: u64,
) -> (r: Result<(User, u32), ApiError>)
    requires
        old(store).wf(),
        old(otp).wf(),
        old(store).next_id < u64::MAX,
    ensures
        final(store).wf(),
        final(otp).wf(),
        (username_taken(old(store).accounts@, form.username@) || email_taken(
            old(store).accounts@,
            form.email@,
        )) ==> (r == Result::<(User, u32), ApiError>::Err(ApiError::Conflict) && *final(store)
            == *old(store) && *final(otp) == *old(otp)),
        (!username_taken(old(store).accounts@, form.username@) && !email_taken(
            old(store).accounts@,
            form.email@,
        )) ==> (match r {
            Result::Ok((u, code)) => {
                &&& u.id == old(store).next_id
                &&& u.username@ == form.username@
                &&& u.email@ == form.email@
                &&& !u.is_verified
                &&& u.created_at == now
                &&& bcrypt_accepts(form.password@, u.password_hash@)
                &&& u.password_hash@.len() == 60
                &&& final(store).accounts@ == old(store).accounts@.push(u)
                &&& final(store).next_id == old(store).next_id + 1
                &&& 100000 <= code <= 999998
                &&& otp_lookup(final(otp).entries@, form.email@) == Some(code)
                &&& forall|e: Seq<char>|
                    e != form.email@ ==> otp_lookup(final(otp).entries@, e) == otp_lookup(
                        old(otp).entries@,
                        e,
                    )
            },
            Result::Err(e) => e == ApiError::StorageFailure && *final(store) == *old(store)
                && *final(otp) == *old(otp),
        }),
{
    if find_by_username(&store.accounts, &form.username).is_some() {
        return Err(ApiError::Conflict);
    }
    if find_by_email(&store.accounts, &form.email).is_some() {
        return Err(ApiError::Conflict);
    }
    let hashed = match hash_password(&form.password) {
        Result::Ok(h) => h,
        Result::Err(_) => {
            return Err(ApiError::StorageFailure);
        },
    };
    let user = User {
        id: store.next_id,
        username: form.username.clone(),
        email: form.email.clone(),
        password_hash: hashed,
        is_verified: false,
        created_at: now,
    };
    let ghost s = store.accounts@;
    store.accounts.push(user.clone());
    store.next_id = store.next_id + 1;
    proof {
        assert forall|i: int, j: int|
            0 <= i < j < store.accounts@.len() implies store.accounts@[i].username@
            != store.accounts@[j].username@ && store.accounts@[i].email@
            != store.accounts@[j].email@ && store.accounts@[i].id < store.accounts@[j].id by {
            if j < store.accounts@.len() - 1 {
                assert(store.accounts@[i] == s[i] && store.accounts@[j] == s[j]);
            } else {
                assert(store.accounts@[i] == s[i]);
            }
        }
    }
    let code = crate::otp::issue(otp, &form.email);
    Ok((user, code))
}

/// Email verification. If no account carries the email the result is
/// `NotFound` and nothing changes. Otherwise the outstanding code for the
/// email is consumed in one step regardless of outcome; only if the
/// submission matched is the account's `is_verified` flag set (false to
/// true only — verification is monotonic and touches nothing else).
pub fn verify_email(
    store: &mut CredentialStore,
    otp: &mut OtpVerifier,
    form: &VerifyData,
) -> (r: Result<(), ApiError>)
    requires
        old(store).wf(),
        old(otp).wf(),
    ensures
        final(store).wf(),
        final(otp).wf(),
        final(store).next_id == old(store).next_id,
        !email_taken(old(store).accounts@, form.email@) ==> (r == Result::<(), ApiError>::Err(
            ApiError::NotFound,
        ) && *final(store) == *old(store) && *final(otp) == *old(otp)),
        email_taken(old(store).accounts@, form.email@) ==> {
            &&& otp_lookup(final(otp).entries@, form.email@) is None
            &&& forall|e: Seq<char>|
                e != form.email@ ==> otp_lookup(final(otp).entries@, e) == otp_lookup(
                    old(otp).entries@,
                    e,
                )
            &&& r == if verify_outcome(old(otp).entries@, form.email@, form.otp@) {
                Result::<(), ApiError>::Ok(())
            } else {
                Result::<(), ApiError>::Err(ApiError::InvalidCredential)
            }
            &&& (r is Ok ==> exists|i: int|
                0 <= i < old(store).accounts@.len() && old(store).accounts@[i].email@
                    == form.email@ && final(store).accounts@ == old(store).accounts@.update(
                    i,
                    User { is_verified: true, ..old(store).accounts@[i] },
                ))
            &&& (r is Err ==> final(store).accounts@ == old(store).accounts@)
        },
        // verification is monotonic: no account loses its flag
        forall|i: int|
            0 <= i < old(store).accounts@.len() && old(store).accounts@[i].is_verified
                ==> #[trigger] final(store).accounts@[i].is_verified,
{
    let idx = match find_by_email(&store.accounts, &form.email) {
        Option::Some(i) => i,
        Option::None => {
            return Err(ApiError::NotFound);
        },
    };
    let ok = crate::otp::verify(otp, &form.email, &form.otp);
    if ok {
        let ghost s = store.accounts@;
        let mut u = store.accounts.remove(idx);
        u.is_verified = true;
        store.accounts.insert(idx, u);
        proof {
            assert(store.accounts@ =~= s.update(
                idx as int,
                User { is_verified: true, ..s[idx as int] },
            ));
        }
        Ok(())
    } else {
        Err(ApiError::InvalidCredential)
    }
}

/// The pure login decision: `Ok` with the account exactly when the
/// username is on file, the account is verified, and the password matches
/// the stored hash; `InvalidCredential` otherwise, deliberately the same
/// error whichever sub-condition failed. In particular a correct password
/// against an unverified account is refused.
pub fn authenticate(store: &CredentialStore, form: &LoginData) -> (r: Result<User, ApiError>)
    requires
        store.wf(),
    ensures
        r is Ok <==> login_accepted(store.accounts@, form.username@, form.password@),
        r is Ok ==> {
            &&& store.accounts@.contains(r->Ok_0)
            &&& r->Ok_0.username@ == form.username@
            &&& r->Ok_0.is_verified
            &&& bcrypt_accepts(form.password@, r->Ok_0.password_hash@)
        },
        r is Err ==> r->Err_0 == ApiError::InvalidCredential,
        // an unverified account is refused even with a correct password
        forall|i: int|
            0 <= i < store.accounts@.len() && store.accounts@[i].username@ == form.username@
                && !store.accounts@[i].is_verified ==> r is Err,
{
    let idx = match find_by_username(&store.accounts, &form.username) {
        Option::Some(i) => i,
        Option::None => {
            return Err(ApiError::InvalidCredential);
        },
    };
    if !store.accounts[idx].is_verified {
        return Err(ApiError::InvalidCredential);
    }
    if !check_password(&form.password, &store.accounts[idx].password_hash) {
        return Err(ApiError::InvalidCredential);
    }
    let u = store.accounts[idx].clone();
    proof {
        assert(store.accounts@[idx as int] == u);
    }
    Ok(u)
}

/// Builds the claim set for a freshly authenticated account: subject id,
/// username, and expiry one day from `now`.
pub fn build_claims(user: &User, now: u64) -> (c: Claims)
    requires
        now + TOKEN_TTL_SECS <= u64::MAX,
    ensures
        c.sub == user.id,
        c.username@ == user.username@,
        c.exp == now + TOKEN_TTL_SECS,
{
    Claims { sub: user.id, username: user.username.clone(), exp: now + TOKEN_TTL_SECS }
}

/// Login. A token is issued exactly when a verified account matches the
/// username and the password; in every other case (no such user, wrong
/// password, unverified account) the result is `InvalidCredential`. The
/// token is the HS256 token signed with `secret` over the account's id,
/// the username, and an expiry one day from `now`.
pub fn login(store: &CredentialStore, form: &LoginData, now: u64, secret: &String) -> (r: Result<
    String,
    ApiError,
>)
    requires
        store.wf(),
        now + TOKEN_TTL_SECS <= u64::MAX,
    ensures
        r is Ok <==> login_accepted(store.accounts@, form.username@, form.password@),
        r is Err ==> r == Result::<String, ApiError>::Err(ApiError::InvalidCredential),
        r is Ok ==> exists|i: int|
            0 <= i < store.accounts@.len() && store.accounts@[i].username@ == form.username@
                && r->Ok_0@ == jwt_of(
                store.accounts@[i].id,
                store.accounts@[i].username@,
                (now + TOKEN_TTL_SECS) as u64,
                secret@,
            ),
        // an unverified account is refused even with a correct password
        forall|i: int|
            0 <= i < store.accounts@.len() && store.accounts@[i].username@ == form.username@
                && !store.accounts@[i].is_verified ==> r == Result::<String, ApiError>::Err(
                ApiError::InvalidCredential,
            ),
{
    let user = match authenticate(store, form) {
        Result::Ok(u) => u,
        Result::Err(_) => {
            return Err(ApiError::InvalidCredential);
        },
    };
    let claims = build_claims(&user, now);
    let token = sign_claims(&claims, secret);
    proof {
        let i = choose|i: int| 0 <= i < store.accounts@.len() && store.accounts@[i] == user;
        assert(store.accounts@[i].username@ == form.username@);
    }
    Ok(token)
}

} // verus!
