use vstd::prelude::*;

verus! {

use vstd::slice::slice_to_vec;
use crate::models::{AppState, FileInfo, LoginPayload};

/// Relies on uuid::Uuid::new_v4 and its hyphenated text form: a random
/// 128-bit value rendered as 36 characters. Nothing else is assumed of the
/// value: it differs from run to run.
#[verifier::external_body]
fn fresh_session_token() -> (t: String)
    ensures
        t@.len() == 36,
{
    uuid::Uuid::new_v4().to_string()
}

impl AppState {
    /// Assembles the shared state at startup, issuing the process's single
    /// random session token.
    pub fn new(metadata: Vec<FileInfo>, password: String) -> (s: AppState)
        ensures
            s.metadata == metadata,
            s.password == password,
            s.auth_token@.len() == 36,
    {
        AppState { metadata, password, auth_token: fresh_session_token() }
    }
}

/// Decides whether a request carrying `cookie` may reach a protected route:
/// admitted exactly when a session cookie is present and its value equals
/// the live session token.
pub fn auth(state: &AppState, cookie: Option<&String>) -> (r: bool)
    ensures
        r == (cookie matches Some(c) && c@ == state.auth_token@),
{
    match cookie {
        Some(c) => *c == state.auth_token,
        None => false,
    }
}

/// The attributes of the session cookie handed to the HTTP layer.
pub struct SessionCookie {
    pub name: String,
    pub value: String,
    pub path: String,
    pub http_only: bool,
    pub secure: bool,
    pub same_site_strict: bool,
}

/// The outcome of a login attempt. A rejection carries nothing: the
/// response to a wrong password is a generic failure indication.
pub enum LoginOutcome {
    Accepted { cookie: SessionCookie },
    Rejected,
}

/// What a freshly issued session cookie looks like: named "session", set to
/// the live session token, on the root path, HTTP-only, secure, and
/// same-site-strict.
pub open spec fn session_cookie_ok(cookie: &SessionCookie, state: &AppState) -> bool {
    &&& cookie.name@ == "session"@
    &&& cookie.value@ == state.auth_token@
    &&& cookie.path@ == "/"@
    &&& cookie.http_only
    &&& cookie.secure
    &&& cookie.same_site_strict
}

/// Decides a login attempt: accepted exactly when the submitted password
/// equals the configured one, and then the client is handed the session
/// token in an HTTP-only, secure, same-site-strict cookie on the root path.
pub fn login(state: &AppState, payload: &LoginPayload) -> (r: LoginOutcome)
    ensures
        (payload.password@ == state.password@) <==> r is Accepted,
        r matches LoginOutcome::Accepted { cookie } ==> session_cookie_ok(&cookie, state),
{
    if payload.password == state.password {
        LoginOutcome::Accepted {
            cookie: SessionCookie {
                name: String::from_str("session"),
                value: state.auth_token.clone(),
                path: String::from_str("/"),
                http_only: true,
                secure: true,
                same_site_strict: true,
            },
        }
    } else {
        LoginOutcome::Rejected
    }
}

/// The full catalog, exactly as built at startup and in the same order.
pub fn metadata(state: &AppState) -> (r: &Vec<FileInfo>)
    ensures
        r@ == state.metadata@,
{
    &state.metadata
}

/// The content-disposition header value naming a downloaded file.
pub open spec fn content_disposition_of(name: Seq<char>) -> Seq<char> {
    "attachment; filename=\""@ + name + "\""@
}

fn build_content_disposition(name: &str) -> (r: String)
    ensures
        r@ == content_disposition_of(name@),
{
    let mut s = String::from_str("attachment; filename=\"");
    s.append(name);
    s.append("\"");
    proof {
        assert(s@ =~= content_disposition_of(name@));
    }
    s
}

/// Everything the streaming layer needs to serve one download: the path to
/// read, and the response headers computed from the catalog entry.
pub struct DownloadPlan {
    pub file_path: Vec<u8>,
    pub file_name: String,
    pub content_disposition: String,
    pub content_length: u64,
}

/// No catalog entry carries the requested identity.
#[derive(Clone, Copy, Debug, PartialEq, Eq)]
pub struct NotFound;

/// Looks up a requested identity in the catalog: not found exactly when no
/// entry carries it; otherwise a download plan for the first entry that
/// does, with the content length taken from the cached size and a
/// content-disposition attachment header naming the file.
pub fn file(state: &AppState, uuid: u128) -> (r: Result<DownloadPlan, NotFound>)
    ensures
        r is Err <==> (forall|i: int|
            0 <= i < state.metadata@.len() ==> state.metadata@[i]@.uuid != uuid),
        r matches Ok(plan) ==> exists|i: int|
            #![auto]
            {
                &&& 0 <= i < state.metadata@.len()
                &&& state.metadata@[i]@.uuid == uuid
                &&& forall|j: int| 0 <= j < i ==> state.metadata@[j]@.uuid != uuid
                &&& plan.file_path@ == state.metadata@[i]@.file_path
                &&& plan.file_name@ == state.metadata@[i]@.file_name
                &&& plan.content_length == state.metadata@[i]@.file_size
                &&& plan.content_disposition@ == content_disposition_of(
                    state.metadata@[i]@.file_name,
                )
            },
{
    let mut i: usize = 0;
    while i < state.metadata.len()
        invariant
            i <= state.metadata@.len(),
            forall|j: int| 0 <= j < i ==> state.metadata@[j]@.uuid != uuid,
        decreases state.metadata@.len() - i,
    {
        let entry = &state.metadata[i];
        if entry.uuid == uuid {
            let file_path = slice_to_vec(entry.file_path.as_slice());
            proof {
                assert(file_path@ =~= entry.file_path@);
            }
            return Ok(DownloadPlan {
                file_path,
                file_name: entry.file_name.clone(),
                content_disposition: build_content_disposition(entry.file_name.as_str()),
                content_length: entry.file_size,
            });
        }
        i = i + 1;
    }
    Err(NotFound)
}

} // verus!
