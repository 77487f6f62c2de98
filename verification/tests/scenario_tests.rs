use fileshare::handlers::{auth, login, metadata, LoginOutcome};
use fileshare::models::{AppState, LoginPayload, ResolvedFile};
use fileshare::utilities::generate_metadata;

// Two shared files, a password, one full pass through login, listing and
// download planning.
#[test]
fn two_files_end_to_end() {
    let catalog = generate_metadata(&vec![
        ResolvedFile { path: b"/tmp/a.txt".to_vec(), size: 10 },
        ResolvedFile { path: b"/tmp/b.txt".to_vec(), size: 20 },
    ])
    .unwrap();
    assert_eq!(catalog.len(), 2);
    assert_ne!(catalog[0].uuid, catalog[1].uuid);

    let state = AppState::new(catalog, "secret".to_string());

    // logging in with the right password hands out the live session token
    let cookie = match login(&state, &LoginPayload { password: "secret".to_string() }) {
        LoginOutcome::Accepted { cookie } => cookie,
        LoginOutcome::Rejected => panic!("correct password must be accepted"),
    };
    assert_eq!(cookie.value, state.auth_token);

    // the catalog listing with that cookie: two records, sizes 10 and 20
    assert!(auth(&state, Some(&cookie.value)));
    let listed = metadata(&state);
    assert_eq!(listed.len(), 2);
    assert_eq!(listed[0].file_size, 10);
    assert_eq!(listed[1].file_size, 20);

    // downloading a.txt by its identity
    let id_a = state.metadata[0].uuid;
    let plan = fileshare::handlers::file(&state, id_a).unwrap();
    assert_eq!(plan.content_length, 10);
    assert_eq!(plan.content_disposition, "attachment; filename=\"a.txt\"");
    assert_eq!(plan.file_path, b"/tmp/a.txt".to_vec());

    // without any cookie the listing is refused
    assert!(!auth(&state, None));
}
