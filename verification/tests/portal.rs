use botracers::portal::{
    bearer_header, handle_web_api_command, maybe_auth_token, process_web_api_event,
    request_artifact, response_error, take_fetch_result, uploading_message, web_api_url,
    ArtifactFetchPipeline, CompileResult, DriverType, SimState, WebAction, WebApiCommand,
    WebApiEvent, WebPortalState,
};
use botracers::portal::{start_button_label, start_button_next};
use botracers::protocol::{LoginResponse, ServerCapabilities, UploadArtifactResponse, UserInfo};

fn state() -> WebPortalState {
    WebPortalState::new("http://hub".to_string())
}

fn caps(auth: bool) -> ServerCapabilities {
    ServerCapabilities {
        auth_required: auth,
        mode: if auth { "server" } else { "standalone" }.to_string(),
        registration_enabled: true,
    }
}

#[test]
fn commands_wait_for_capabilities() {
    let mut s = state();
    let a = handle_web_api_command(&mut s, WebApiCommand::LoadArtifacts);
    assert!(matches!(a, Some(WebAction::FetchCapabilities)));
    assert_eq!(s.status_message.as_deref(), Some("Checking server capabilities first..."));
    let a = handle_web_api_command(&mut s, WebApiCommand::RefreshCapabilities);
    assert!(matches!(a, Some(WebAction::FetchCapabilities)));
    assert_eq!(s.status_message.as_deref(), Some("Loading server capabilities..."));
}

#[test]
fn tokens_follow_the_hub_mode() {
    let mut s = state();
    assert_eq!(maybe_auth_token(&s), Err("Server capabilities not loaded yet".to_string()));
    s.auth_required = Some(false);
    assert_eq!(maybe_auth_token(&s), Ok(None));
    s.auth_required = Some(true);
    assert_eq!(maybe_auth_token(&s), Err("Login required".to_string()));
    s.token = Some("t".to_string());
    assert_eq!(maybe_auth_token(&s), Ok(Some("t".to_string())));
}

#[test]
fn capabilities_lead_to_login_or_listing() {
    let mut s = state();
    s.cli_credentials = Some(("alice".to_string(), "pw".to_string()));
    let a = process_web_api_event(&mut s, WebApiEvent::Capabilities(Ok(caps(true))));
    match a {
        Some(WebAction::FetchLogin { username, password }) => {
            assert_eq!(username, "alice");
            assert_eq!(password, "pw");
        }
        other => panic!("unexpected action {other:?}"),
    }
    assert_eq!(s.status_message.as_deref(), Some("Logging in as 'alice'..."));

    let mut s = state();
    let a = process_web_api_event(&mut s, WebApiEvent::Capabilities(Ok(caps(false))));
    assert!(matches!(a, Some(WebAction::FetchArtifacts { token: None })));
    assert_eq!(
        s.status_message.as_deref(),
        Some("Connected: mode=standalone, auth_required=false")
    );

    let mut s = state();
    let a = process_web_api_event(&mut s, WebApiEvent::Capabilities(Ok(caps(true))));
    assert!(a.is_none());
    assert_eq!(s.status_message.as_deref(), Some("Connected: mode=server, auth_required=true"));
}

#[test]
fn replies_update_state_and_status() {
    let mut s = state();
    s.auth_required = Some(true);
    let login = LoginResponse {
        token: "tok".to_string(),
        user: UserInfo { id: 3, username: "bob".to_string() },
    };
    let a = process_web_api_event(&mut s, WebApiEvent::Login(Ok(login)));
    match a {
        Some(WebAction::FetchArtifacts { token }) => assert_eq!(token.as_deref(), Some("tok")),
        other => panic!("unexpected action {other:?}"),
    }
    assert_eq!(s.token.as_deref(), Some("tok"));
    assert_eq!(s.status_message.as_deref(), Some("Logged in as bob"));

    let a = process_web_api_event(&mut s, WebApiEvent::Artifacts(Ok(vec![])));
    assert!(a.is_none());
    assert_eq!(s.status_message.as_deref(), Some("Loaded 0 artifacts"));

    let a = process_web_api_event(
        &mut s,
        WebApiEvent::UploadResult(Ok(UploadArtifactResponse { artifact_id: 42 })),
    );
    assert!(matches!(a, Some(WebAction::FetchArtifacts { .. })));
    assert_eq!(s.status_message.as_deref(), Some("Uploaded artifact #42"));

    let a = process_web_api_event(&mut s, WebApiEvent::UploadResult(Err("boom".to_string())));
    assert!(a.is_none());
    assert_eq!(s.status_message.as_deref(), Some("Upload failed: boom"));

    let a = process_web_api_event(&mut s, WebApiEvent::Login(Err("nope".to_string())));
    assert!(a.is_none());
    assert_eq!(s.status_message.as_deref(), Some("Login failed: nope"));
    assert_eq!(s.token.as_deref(), Some("tok"));
}

#[test]
fn upload_command_asks_for_a_file() {
    let mut s = state();
    s.auth_required = Some(true);
    let a = handle_web_api_command(&mut s, WebApiCommand::UploadArtifact);
    assert!(a.is_none());
    assert_eq!(s.status_message.as_deref(), Some("Login required"));
    s.token = Some("k".to_string());
    let a = handle_web_api_command(&mut s, WebApiCommand::UploadArtifact);
    match a {
        Some(WebAction::PickArtifactToUpload { token }) => assert_eq!(token.as_deref(), Some("k")),
        other => panic!("unexpected action {other:?}"),
    }
    assert_eq!(uploading_message("car.elf"), "Uploading 'car.elf'...");
}

#[test]
fn urls_headers_and_errors() {
    assert_eq!(web_api_url("http://hub/", "/api/v1/x"), "http://hub/api/v1/x");
    assert_eq!(web_api_url("http://hub//", "/a"), "http://hub/a");
    assert_eq!(web_api_url("http://hub", "/a"), "http://hub/a");
    assert_eq!(bearer_header("abc"), "Bearer abc");
    assert_eq!(response_error(404, "Not Found", "  missing \n"), "HTTP 404 Not Found: missing");
    assert_eq!(DriverType::RemoteArtifact { id: 7 }.label(), "Artifact: #7");
    assert_eq!(DriverType::RemoteArtifact { id: -7 }.label(), "Artifact: #-7");
}

#[test]
fn artifact_downloads() {
    let mut p = ArtifactFetchPipeline::new();
    let mut s = state();
    s.auth_required = Some(false);
    let req = request_artifact(&mut p, &s, DriverType::RemoteArtifact { id: 5 }, SimState::PreRace)
        .unwrap();
    assert_eq!(req.request_id, 0);
    assert_eq!(req.artifact_id, 5);
    assert_eq!(req.token, None);
    assert_eq!(p.next_request_id, 1);
    assert_eq!(p.status_message.as_deref(), Some("Downloading artifact #5..."));

    assert!(request_artifact(&mut p, &s, DriverType::RemoteArtifact { id: 6 }, SimState::Racing).is_none());
    assert_eq!(p.next_request_id, 1);

    let done = CompileResult { id: 0, binary: "car".to_string(), result: Ok(vec![1, 2]) };
    let (driver, bytes) = take_fetch_result(&mut p, done, SimState::PreRace).unwrap();
    assert_eq!(driver, DriverType::RemoteArtifact { id: 5 });
    assert_eq!(bytes, vec![1, 2]);
    assert_eq!(p.status_message.as_deref(), Some("Loaded and spawned 'car'"));
    assert!(p.pending.is_empty());

    let again = CompileResult { id: 0, binary: "car".to_string(), result: Ok(vec![]) };
    assert!(take_fetch_result(&mut p, again, SimState::PreRace).is_none());

    let req = request_artifact(&mut p, &s, DriverType::RemoteArtifact { id: 8 }, SimState::PreRace)
        .unwrap();
    let late = CompileResult { id: req.request_id, binary: "b".to_string(), result: Ok(vec![]) };
    assert!(take_fetch_result(&mut p, late, SimState::Racing).is_none());
    assert_eq!(
        p.status_message.as_deref(),
        Some("Discarded compiled 'b' result (race already started)")
    );

    let req = request_artifact(&mut p, &s, DriverType::RemoteArtifact { id: 9 }, SimState::PreRace)
        .unwrap();
    let failed = CompileResult { id: req.request_id, binary: "c".to_string(), result: Err("gone".to_string()) };
    assert!(take_fetch_result(&mut p, failed, SimState::PreRace).is_none());
    assert_eq!(p.status_message.as_deref(), Some("Artifact load failed for 'c': gone"));

    s.auth_required = None;
    assert!(request_artifact(&mut p, &s, DriverType::RemoteArtifact { id: 1 }, SimState::PreRace).is_none());
    assert!(p.pending.is_empty());
    assert_eq!(p.status_message.as_deref(), Some("Server capabilities not loaded yet"));
}

#[test]
fn start_button_starts_pauses_and_resumes() {
    assert_eq!(start_button_next(SimState::PreRace), SimState::Racing);
    assert_eq!(start_button_next(SimState::Racing), SimState::Paused);
    assert_eq!(start_button_next(SimState::Paused), SimState::Racing);
    assert_eq!(start_button_label(SimState::PreRace), "Start");
    assert_eq!(start_button_label(SimState::Racing), "Pause");
    assert_eq!(start_button_label(SimState::Paused), "Resume");
    let twice = start_button_next(start_button_next(SimState::Racing));
    assert_eq!(twice, SimState::Racing);
}
