//! Accounts, sessions and the claims of a token: what is decided when
//! someone signs up or in, and when a request shows its credentials.
//! Hashing passwords and signing tokens is not done here.

use crate::crud::{document_has_id, has_id};
use crate::decimal::{count_of, parse_u64};
use crate::json::{items_view, Json, JsonValue};
use crate::number::{Number, NumberValue};
use crate::toml_config::AuthType;
use vstd::prelude::*;

verus! {

/// What someone sends to sign up.
#[derive(Clone, Debug)]
pub struct SignUpInput {
    pub name: String,
    pub email: String,
    pub password: String,
}

/// What someone sends to sign in.
#[derive(Clone, Debug)]
pub struct SignInInput {
    pub email: String,
    pub password: String,
}

/// The answer to a sign-in by token.
#[derive(Clone, Debug)]
pub struct AuthBody {
    pub access_token: String,
    pub token_type: String,
}

/// The claims of a token.
#[derive(Clone, Debug)]
pub struct Claims {
    /// When the token expires, in seconds since the epoch.
    pub exp: usize,
    /// When the token was issued.
    pub iat: usize,
    /// Who issued it.
    pub iss: String,
    /// From when on it is valid.
    pub nbf: usize,
    /// The account it was issued to.
    pub sub: i64,
}

/// What is stored of an account and read when its owner signs in.
#[derive(Clone, Debug)]
pub struct Account {
    pub user_id: Option<i64>,
    pub password_hash: Option<String>,
}

/// An answer that turns a request away.
#[derive(Clone, Debug)]
pub struct Rejection {
    pub status: u16,
    pub message: String,
}

/// How long a token is valid: seven days, in seconds.
pub const TOKEN_LIFETIME: usize = 604_800;

/// The claims of a token issued at `now` to the account `user_id`: valid
/// from then on for seven days. None where that time cannot be written.
pub fn issue_claims(now: usize, user_id: i64) -> (claims: Option<Claims>)
    ensures
        match claims {
            Some(c) => {
                &&& c.exp == now + TOKEN_LIFETIME
                &&& c.iat == now
                &&& c.nbf == now
                &&& c.sub == user_id
                &&& c.iss@ == "aginisi.com"@
            },
            None => now + TOKEN_LIFETIME > usize::MAX,
        },
{
    match now.checked_add(TOKEN_LIFETIME) {
        Some(exp) => Some(
            Claims { exp, iat: now, iss: "aginisi.com".to_owned(), nbf: now, sub: user_id },
        ),
        None => None,
    }
}

/// The answer to a sign-in by token: a bearer token.
pub fn bearer_body(token: String) -> (body: AuthBody)
    ensures
        body.access_token == token,
        body.token_type@ == "Bearer"@,
{
    AuthBody { access_token: token, token_type: "Bearer".to_owned() }
}

/// The document that is stored for a new account.
pub open spec fn account_document(
    name: Seq<char>,
    email: Seq<char>,
    password_hash: Seq<char>,
) -> JsonValue {
    JsonValue::Object(
        Map::empty().insert("name"@, JsonValue::Text(name)).insert(
            "email"@,
            JsonValue::Text(email),
        ).insert("password_hash"@, JsonValue::Text(password_hash)),
    )
}

/// The document to store for someone who signs up, the password by its
/// hash only.
pub fn sign_up_document(input: &SignUpInput, password_hash: String) -> (doc: Json)
    ensures
        doc@ == account_document(input.name@, input.email@, password_hash@),
{
    let mut doc = Json::Object(Vec::new());
    assert(doc@ == JsonValue::Object(Map::empty()));
    doc.set_field("name".to_owned(), Json::Text(input.name.clone()));
    doc.set_field("email".to_owned(), Json::Text(input.email.clone()));
    doc.set_field("password_hash".to_owned(), Json::Text(password_hash));
    doc
}

/// What is shown of a stored account: all but the hash of its password.
pub fn public_profile(account: &Json) -> (shown: Json)
    ensures
        shown@ == account@.without_field("password_hash"@),
{
    account.without_field("password_hash")
}

/// The document that is stored for a session of the account `user_id`.
pub fn session_document(user_id: i64) -> (doc: Json)
    ensures
        doc@ == JsonValue::Object(
            Map::empty().insert(
                "user_id"@,
                JsonValue::Number(NumberValue::Whole(user_id as int)),
            ),
        ),
{
    let number = if user_id >= 0 {
        Number::Unsigned(user_id as u64)
    } else {
        Number::Negative(user_id)
    };
    let mut doc = Json::Object(Vec::new());
    assert(doc@ == JsonValue::Object(Map::empty()));
    doc.set_field("user_id".to_owned(), Json::Number(number));
    doc
}

/// Whether the document is the account of `email`.
pub open spec fn has_email(doc: JsonValue, email: Seq<char>) -> bool {
    doc.field("email"@) == Some(JsonValue::Text(email))
}

/// The place of the first account of `email`.
pub open spec fn first_with_email(docs: Seq<JsonValue>, email: Seq<char>) -> Option<int>
    decreases docs.len(),
{
    if docs.len() == 0 {
        None
    } else {
        match first_with_email(docs.drop_last(), email) {
            Some(i) => Some(i),
            None => if has_email(docs.last(), email) {
                Some(docs.len() - 1)
            } else {
                None
            },
        }
    }
}

/// The identifier that an account document gives: its field `id`, where
/// that is a whole number that fits 64 bits with a sign.
pub open spec fn account_id(doc: JsonValue) -> Option<i64> {
    match doc.field("id"@) {
        Some(JsonValue::Number(NumberValue::Whole(v))) => if i64::MIN <= v <= i64::MAX {
            Some(v as i64)
        } else {
            None
        },
        _ => None,
    }
}

/// The password hash that an account document gives: its field
/// `password_hash`, where that is text.
pub open spec fn account_hash(doc: JsonValue) -> Option<Seq<char>> {
    match doc.field("password_hash"@) {
        Some(JsonValue::Text(hash)) => Some(hash),
        _ => None,
    }
}

/// Whether `account` is what the document holds of an account.
pub open spec fn account_of(doc: JsonValue, account: Account) -> bool {
    &&& account.user_id == account_id(doc)
    &&& match account.password_hash {
        Some(hash) => account_hash(doc) == Some(hash@),
        None => account_hash(doc) is None,
    }
}

/// Reads from a document what is stored of an account.
pub fn read_account(doc: &Json) -> (account: Account)
    ensures
        account_of(doc@, account),
{
    let user_id = match doc.get("id") {
        Some(value) => value.as_i64(),
        None => None,
    };
    let password_hash = match doc.get("password_hash") {
        Some(Json::Text(hash)) => Some(hash.clone()),
        _ => None,
    };
    Account { user_id, password_hash }
}

/// Finds the first account of `email` among the stored accounts.
pub fn find_account(accounts: &Vec<Json>, email: &str) -> (found: Option<Account>)
    ensures
        match first_with_email(items_view(accounts@), email@) {
            Some(i) => found is Some && account_of(items_view(accounts@)[i], found.unwrap()),
            None => found is None,
        },
{
    let ghost docs = items_view(accounts@);
    let wanted = Json::Text(email.to_owned());
    let mut i: usize = 0;
    while i < accounts.len()
        invariant
            i <= accounts.len(),
            docs == items_view(accounts@),
            wanted@ == JsonValue::Text(email@),
            first_with_email(docs.take(i as int), email@) is None,
        decreases accounts.len() - i,
    {
        let is_it = match accounts[i].get("email") {
            Some(value) => value.same_as(&wanted),
            None => false,
        };
        proof {
            assert(docs.take(i + 1).drop_last() =~= docs.take(i as int));
            assert(docs.take(i + 1).last() == docs[i as int]);
        }
        if is_it {
            proof {
                lemma_first_with_email_stays(docs, email@, i + 1);
            }
            return Some(read_account(&accounts[i]));
        }
        i = i + 1;
    }
    proof {
        assert(docs.take(accounts.len() as int) =~= docs);
    }
    None
}

/// The first account found among the first `k` documents is the first
/// among them all.
pub proof fn lemma_first_with_email_stays(docs: Seq<JsonValue>, email: Seq<char>, k: int)
    requires
        0 <= k <= docs.len(),
        first_with_email(docs.take(k), email) is Some,
    ensures
        first_with_email(docs, email) == first_with_email(docs.take(k), email),
    decreases docs.len(),
{
    if k == docs.len() {
        assert(docs.take(k) =~= docs);
    } else {
        assert(docs.drop_last().take(k) =~= docs.take(k));
        lemma_first_with_email_stays(docs.drop_last(), email, k);
    }
}

/// What the password check found.
#[derive(Clone, Copy, Debug, PartialEq, Eq, Structural)]
pub enum PasswordCheck {
    /// The stored hash cannot be read as a hash.
    Unreadable,
    /// The password does not belong to the hash.
    Mismatch,
    /// The password belongs to the hash.
    Match,
}

/// What is to be done for someone who signs in.
#[derive(Clone, Copy, Debug, PartialEq, Eq, Structural)]
pub enum SignIn {
    /// Turn the request away with this status.
    Reject { status: u16, wrong_password: bool },
    /// Issue a token to the account.
    IssueToken { user_id: i64 },
    /// Store a session of the account and answer with it.
    OpenSession { user_id: i64 },
}

/// Decides a sign-in from what the password check found. A wrong password
/// and an unreadable hash are both answered with 400. An account without
/// identifier and a server without authorisation are answered with 409, as
/// an unknown e-mail address is.
pub fn sign_in_decision(check: PasswordCheck, user_id: Option<i64>, auth: Option<AuthType>) -> (plan:
    SignIn)
    ensures
        plan == match check {
            PasswordCheck::Unreadable => SignIn::Reject { status: 400, wrong_password: false },
            PasswordCheck::Mismatch => SignIn::Reject { status: 400, wrong_password: true },
            PasswordCheck::Match => match (auth, user_id) {
                (Some(AuthType::Jwt), Some(id)) => SignIn::IssueToken { user_id: id },
                (Some(AuthType::Session), Some(id)) => SignIn::OpenSession { user_id: id },
                _ => SignIn::Reject { status: 409, wrong_password: false },
            },
        },
{
    match check {
        PasswordCheck::Unreadable => SignIn::Reject { status: 400, wrong_password: false },
        PasswordCheck::Mismatch => SignIn::Reject { status: 400, wrong_password: true },
        PasswordCheck::Match => match (auth, user_id) {
            (Some(AuthType::Jwt), Some(id)) => SignIn::IssueToken { user_id: id },
            (Some(AuthType::Session), Some(id)) => SignIn::OpenSession { user_id: id },
            _ => SignIn::Reject { status: 409, wrong_password: false },
        },
    }
}

/// The text of the answer that turns a sign-in away.
pub fn sign_in_rejection(status: u16, wrong_password: bool) -> (rejection: Rejection)
    ensures
        rejection.status == status,
        rejection.message@ == if wrong_password {
            "email or password in incorrect"@
        } else if status == 409 {
            "Email does not exist"@
        } else {
            ""@
        },
{
    let message = if wrong_password {
        "email or password in incorrect".to_owned()
    } else if status == 409 {
        "Email does not exist".to_owned()
    } else {
        "".to_owned()
    };
    Rejection { status, message }
}

/// Whether a session with identifier `id` is stored.
pub open spec fn session_stored(sessions: Seq<JsonValue>, id: u64) -> bool {
    exists|i: int| 0 <= i < sessions.len() && has_id(#[trigger] sessions[i], id)
}

/// Whether a session with identifier `id` is stored.
pub fn session_known(sessions: &Vec<Json>, id: u64) -> (known: bool)
    ensures
        known == session_stored(items_view(sessions@), id),
{
    let mut i: usize = 0;
    while i < sessions.len()
        invariant
            i <= sessions.len(),
            forall|j: int| 0 <= j < i ==> !has_id(#[trigger] items_view(sessions@)[j], id),
        decreases sessions.len() - i,
    {
        if document_has_id(&sessions[i], id) {
            assert(has_id(items_view(sessions@)[i as int], id));
            return true;
        }
        i = i + 1;
    }
    false
}

/// The credentials that a request has to show.
#[derive(Clone, Copy, Debug, PartialEq, Eq, Structural)]
pub enum Credentials {
    /// None: the server runs without authorisation.
    Nothing,
    /// A token in the `Authorization` header.
    Token,
    /// A session identifier in the `x-session` header.
    Session,
}

/// The credentials that the server's configuration asks for.
pub fn credentials_needed(auth: Option<AuthType>) -> (needed: Credentials)
    ensures
        needed == match auth {
            None => Credentials::Nothing,
            Some(AuthType::Jwt) => Credentials::Token,
            Some(AuthType::Session) => Credentials::Session,
        },
{
    match auth {
        None => Credentials::Nothing,
        Some(AuthType::Jwt) => Credentials::Token,
        Some(AuthType::Session) => Credentials::Session,
    }
}

/// The status that turns a request away for its token, where it is turned
/// away: 400 without the header, 401 with a token that is not valid.
pub fn token_verdict(valid: Option<bool>) -> (status: Option<u16>)
    ensures
        status == match valid {
            None => Some(400u16),
            Some(false) => Some(401u16),
            Some(true) => None,
        },
{
    match valid {
        None => Some(400),
        Some(false) => Some(401),
        Some(true) => None,
    }
}

/// The status that turns a request away for its session, where it is
/// turned away: 400 without the header, 401 where the header names no
/// stored session.
pub fn session_verdict(header: Option<&str>, sessions: &Vec<Json>) -> (status: Option<u16>)
    ensures
        status == match header {
            None => Some(400u16),
            Some(text) => match count_of(text@) {
                Some(id) => if id <= u64::MAX && session_stored(
                    items_view(sessions@),
                    id as u64,
                ) {
                    None
                } else {
                    Some(401u16)
                },
                None => Some(401u16),
            },
        },
{
    match header {
        None => Some(400),
        Some(text) => match parse_u64(text) {
            Some(id) => if session_known(sessions, id) {
                None
            } else {
                Some(401)
            },
            None => Some(401),
        },
    }
}

/// The text of the answer that turns a request away for its credentials.
pub fn credentials_rejection(needed: Credentials, status: u16) -> (rejection: Rejection)
    ensures
        rejection.status == status,
        rejection.message@ == if status != 400 {
            "Unauthorized"@
        } else if needed == Credentials::Session {
            "No Session Id found"@
        } else {
            "No Authorization header found"@
        },
{
    let message = if status != 400 {
        "Unauthorized".to_owned()
    } else {
        match needed {
            Credentials::Session => "No Session Id found".to_owned(),
            _ => "No Authorization header found".to_owned(),
        }
    };
    Rejection { status, message }
}

} // verus!
