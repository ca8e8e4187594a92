use aginisi::auth::{
    bearer_body, credentials_needed, credentials_rejection, find_account, issue_claims,
    public_profile, read_account, session_document, session_known, session_verdict,
    sign_in_decision, sign_in_rejection, sign_up_document, token_verdict, Credentials,
    PasswordCheck, SignIn, SignInInput, SignUpInput, TOKEN_LIFETIME,
};
use aginisi::json::Json;
use aginisi::number::Number;
use aginisi::toml_config::AuthType;

fn a_text(s: &str) -> Json {
    Json::Text(s.to_string())
}

fn a_whole(n: u64) -> Json {
    Json::Number(Number::Unsigned(n))
}

fn a_object(members: &[(&str, Json)]) -> Json {
    Json::Object(members.iter().map(|(k, v)| (k.to_string(), v.clone())).collect())
}

fn a_account(id: u64, email: &str, hash: &str) -> Json {
    a_object(&[("id", a_whole(id)), ("email", a_text(email)), ("password_hash", a_text(hash))])
}

#[test]
fn claims_last_seven_days() {
    let claims = issue_claims(1_700_000_000, 42).unwrap();
    assert_eq!(claims.iat, 1_700_000_000);
    assert_eq!(claims.nbf, 1_700_000_000);
    assert_eq!(claims.exp, 1_700_604_800);
    assert_eq!(claims.exp - claims.iat, 7 * 24 * 60 * 60);
    assert_eq!(claims.sub, 42);
    assert_eq!(claims.iss, "aginisi.com");
    assert_eq!(TOKEN_LIFETIME, 604_800);
}

#[test]
fn claims_are_not_issued_past_the_end_of_time() {
    assert!(issue_claims(usize::MAX, 1).is_none());
    assert!(issue_claims(usize::MAX - TOKEN_LIFETIME + 1, 1).is_none());
    assert_eq!(issue_claims(usize::MAX - TOKEN_LIFETIME, -1).unwrap().exp, usize::MAX);
}

#[test]
fn bearer_body_carries_the_token() {
    let body = bearer_body("abc.def.ghi".to_string());
    assert_eq!(body.access_token, "abc.def.ghi");
    assert_eq!(body.token_type, "Bearer");
}

#[test]
fn sign_up_stores_the_hash_and_shows_the_rest() {
    let input = SignUpInput {
        name: "Alice".to_string(),
        email: "alice@example.org".to_string(),
        password: "secret".to_string(),
    };
    let doc = sign_up_document(&input, "$argon2id$hash".to_string());
    assert_eq!(doc, a_object(&[
        ("name", a_text("Alice")),
        ("email", a_text("alice@example.org")),
        ("password_hash", a_text("$argon2id$hash")),
    ]));
    assert_eq!(doc.get("password"), None);
    let mut stored = doc.clone();
    stored.set_field("id".to_string(), a_whole(1));
    let shown = public_profile(&stored);
    assert_eq!(shown, a_object(&[
        ("name", a_text("Alice")),
        ("email", a_text("alice@example.org")),
        ("id", a_whole(1)),
    ]));
    assert_eq!(public_profile(&Json::Object(vec![])), Json::Object(vec![]));
}

#[test]
fn find_account_takes_the_first_of_an_email() {
    let accounts = vec![
        a_account(1, "alice@example.org", "h1"),
        a_account(2, "bob@example.org", "h2"),
        a_account(3, "bob@example.org", "h3"),
        a_text("bob@example.org"),
    ];
    let found = find_account(&accounts, "bob@example.org").unwrap();
    assert_eq!(found.user_id, Some(2));
    assert_eq!(found.password_hash, Some("h2".to_string()));
    assert!(find_account(&accounts, "carol@example.org").is_none());
    assert!(find_account(&accounts, "Bob@example.org").is_none());
    assert!(find_account(&vec![], "bob@example.org").is_none());
}

#[test]
fn read_account_reads_id_and_hash_where_they_are_there() {
    let account = read_account(&a_account(9, "e", "h"));
    assert_eq!(account.user_id, Some(9));
    assert_eq!(account.password_hash, Some("h".to_string()));
    let account = read_account(&a_object(&[("email", a_text("e")), ("password_hash", a_whole(1))]));
    assert_eq!(account.user_id, None);
    assert_eq!(account.password_hash, None);
    let account = read_account(&a_object(&[("id", a_whole(u64::MAX))]));
    assert_eq!(account.user_id, None);
    let account = read_account(&a_object(&[("id", Json::Number(Number::Negative(-2)))]));
    assert_eq!(account.user_id, Some(-2));
}

#[test]
fn sign_in_is_decided_by_the_password_check() {
    let jwt = Some(AuthType::Jwt);
    let session = Some(AuthType::Session);
    assert_eq!(
        sign_in_decision(PasswordCheck::Unreadable, Some(1), jwt),
        SignIn::Reject { status: 400, wrong_password: false }
    );
    assert_eq!(
        sign_in_decision(PasswordCheck::Mismatch, Some(1), session),
        SignIn::Reject { status: 400, wrong_password: true }
    );
    assert_eq!(sign_in_decision(PasswordCheck::Match, Some(5), jwt), SignIn::IssueToken { user_id: 5 });
    assert_eq!(sign_in_decision(PasswordCheck::Match, Some(5), session), SignIn::OpenSession { user_id: 5 });
    assert_eq!(
        sign_in_decision(PasswordCheck::Match, Some(5), None),
        SignIn::Reject { status: 409, wrong_password: false }
    );
    assert_eq!(
        sign_in_decision(PasswordCheck::Match, None, jwt),
        SignIn::Reject { status: 409, wrong_password: false }
    );
}

#[test]
fn sign_in_rejections_have_their_messages() {
    let r = sign_in_rejection(400, true);
    assert_eq!((r.status, r.message.as_str()), (400, "email or password in incorrect"));
    let r = sign_in_rejection(400, false);
    assert_eq!((r.status, r.message.as_str()), (400, ""));
    let r = sign_in_rejection(409, false);
    assert_eq!((r.status, r.message.as_str()), (409, "Email does not exist"));
}

#[test]
fn session_document_holds_the_account() {
    assert_eq!(session_document(5), a_object(&[("user_id", a_whole(5))]));
    assert_eq!(
        session_document(-5),
        a_object(&[("user_id", Json::Number(Number::Negative(-5)))])
    );
    assert_eq!(session_document(0), a_object(&[("user_id", a_whole(0))]));
}

#[test]
fn sessions_are_known_by_their_id() {
    let sessions = vec![
        a_object(&[("user_id", a_whole(5)), ("id", a_whole(1))]),
        a_object(&[("user_id", a_whole(6)), ("id", a_whole(4))]),
    ];
    assert!(session_known(&sessions, 1));
    assert!(session_known(&sessions, 4));
    assert!(!session_known(&sessions, 5));
    assert!(!session_known(&vec![], 1));
    assert_eq!(session_verdict(Some("4"), &sessions), None);
    assert_eq!(session_verdict(Some("5"), &sessions), Some(401));
    assert_eq!(session_verdict(Some("four"), &sessions), Some(401));
    assert_eq!(session_verdict(Some(""), &sessions), Some(401));
    assert_eq!(session_verdict(None, &sessions), Some(400));
}

#[test]
fn tokens_are_judged_by_their_validity() {
    assert_eq!(token_verdict(Some(true)), None);
    assert_eq!(token_verdict(Some(false)), Some(401));
    assert_eq!(token_verdict(None), Some(400));
}

#[test]
fn credentials_follow_the_configuration() {
    assert_eq!(credentials_needed(None), Credentials::Nothing);
    assert_eq!(credentials_needed(Some(AuthType::Jwt)), Credentials::Token);
    assert_eq!(credentials_needed(Some(AuthType::Session)), Credentials::Session);
    let r = credentials_rejection(Credentials::Token, 400);
    assert_eq!((r.status, r.message.as_str()), (400, "No Authorization header found"));
    let r = credentials_rejection(Credentials::Session, 400);
    assert_eq!((r.status, r.message.as_str()), (400, "No Session Id found"));
    let r = credentials_rejection(Credentials::Session, 401);
    assert_eq!((r.status, r.message.as_str()), (401, "Unauthorized"));
    let r = credentials_rejection(Credentials::Token, 401);
    assert_eq!((r.status, r.message.as_str()), (401, "Unauthorized"));
}

#[test]
fn sign_in_input_holds_what_was_sent() {
    let input = SignInInput { email: "a@b".to_string(), password: "p".to_string() };
    assert_eq!(input.clone().email, "a@b");
    assert_eq!(format!("{input:?}"), "SignInInput { email: \"a@b\", password: \"p\" }");
}
