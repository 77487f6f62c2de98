use fileshare::handlers::{auth, login, metadata, LoginOutcome};
use fileshare::models::{AppState, LoginPayload};

fn state_with_token(token: &str) -> AppState {
    AppState {
        metadata: Vec::new(),
        password: "secret".to_string(),
        auth_token: token.to_string(),
    }
}

#[test]
fn request_without_cookie_is_rejected() {
    let state = state_with_token("live-token");
    assert!(!auth(&state, None));
}

#[test]
fn request_with_wrong_cookie_is_rejected() {
    let state = state_with_token("live-token");
    let stale = "stale-token".to_string();
    assert!(!auth(&state, Some(&stale)));
    let empty = "".to_string();
    assert!(!auth(&state, Some(&empty)));
}

#[test]
fn request_with_correct_token_is_admitted() {
    let state = state_with_token("live-token");
    let cookie = "live-token".to_string();
    assert!(auth(&state, Some(&cookie)));
}

#[test]
fn correct_password_sets_session_cookie() {
    let state = state_with_token("live-token");
    let payload = LoginPayload { password: "secret".to_string() };
    match login(&state, &payload) {
        LoginOutcome::Accepted { cookie } => {
            assert_eq!(cookie.name, "session");
            assert_eq!(cookie.value, "live-token");
            assert_eq!(cookie.path, "/");
            assert!(cookie.http_only);
            assert!(cookie.secure);
            assert!(cookie.same_site_strict);
        }
        LoginOutcome::Rejected => panic!("correct password must be accepted"),
    }
}

#[test]
fn wrong_password_is_rejected_without_a_cookie() {
    let state = state_with_token("live-token");
    let payload = LoginPayload { password: "Secret".to_string() };
    assert!(matches!(login(&state, &payload), LoginOutcome::Rejected));
    let empty = LoginPayload { password: "".to_string() };
    assert!(matches!(login(&state, &empty), LoginOutcome::Rejected));
}

#[test]
fn fresh_state_issues_a_36_character_token() {
    let one = AppState::new(Vec::new(), "pw".to_string());
    let two = AppState::new(Vec::new(), "pw".to_string());
    assert_eq!(one.auth_token.len(), 36);
    assert_eq!(two.auth_token.len(), 36);
    assert_ne!(one.auth_token, two.auth_token);
}

#[test]
fn metadata_returns_the_catalog_unchanged() {
    let mut state = state_with_token("t");
    state.metadata = fileshare::utilities::generate_metadata(&vec![
        fileshare::models::ResolvedFile { path: b"/tmp/a.txt".to_vec(), size: 10 },
        fileshare::models::ResolvedFile { path: b"/tmp/b.txt".to_vec(), size: 20 },
    ])
    .unwrap();
    let listed = metadata(&state);
    assert_eq!(listed.len(), 2);
    assert_eq!(listed[0].file_name, "a.txt");
    assert_eq!(listed[1].file_name, "b.txt");
}

#[test]
fn unknown_identity_is_not_found() {
    let mut state = state_with_token("t");
    state.metadata = fileshare::utilities::generate_metadata(&vec![
        fileshare::models::ResolvedFile { path: b"/tmp/a.txt".to_vec(), size: 10 },
    ])
    .unwrap();
    let absent = state.metadata[0].uuid.wrapping_add(1);
    assert!(fileshare::handlers::file(&state, absent).is_err());
}

#[test]
fn known_identity_yields_a_download_plan() {
    let mut state = state_with_token("t");
    state.metadata = fileshare::utilities::generate_metadata(&vec![
        fileshare::models::ResolvedFile { path: b"/tmp/a.txt".to_vec(), size: 10 },
        fileshare::models::ResolvedFile { path: b"/tmp/b.txt".to_vec(), size: 20 },
    ])
    .unwrap();
    let plan = fileshare::handlers::file(&state, state.metadata[1].uuid).unwrap();
    assert_eq!(plan.file_path, b"/tmp/b.txt".to_vec());
    assert_eq!(plan.file_name, "b.txt");
    assert_eq!(plan.content_length, 20);
    assert_eq!(plan.content_disposition, "attachment; filename=\"b.txt\"");
}
