use botracers::racehub::render_login_page;
use botracers::racehub::render_register_page;
use botracers::racehub::{login_page_for, register_page_or_redirect};
use botracers::racehub::{login_gate, register_gate, request_identity};
use botracers::racehub::capabilities;
use botracers::racehub::artifact_summary;
use botracers::racehub::{delete_answer, download_answer, visibility_answer};
use botracers::racehub::{game_entry_login_page, web_login_answer, web_register_answer, ApiError, WebAnswer};
use botracers::racehub::{
    artifact_file_name, artifact_list_query, logout_tokens, register_failure_status, trim_text,
};
use botracers::racehub::check_upload;
use botracers::racehub::{
    bearer_token, can_change_artifact, can_read_artifact, check_new_user, escape_html,
    expired_session_cookie, next_login_with_error, request_token, sanitize_next, session_cookie,
    session_cookie_token, ApiStatus, AuthMode, ServerConfig,
};

#[test]
fn sanitize_next_rejects_external_targets() {
    assert_eq!(sanitize_next("https://evil.com"), "/");
    assert_eq!(sanitize_next("//evil.com"), "/");
    assert_eq!(sanitize_next("/assets/foo"), "/assets/foo");
}

#[test]
fn sanitize_next_handles_empty_and_root() {
    assert_eq!(sanitize_next(""), "/");
    assert_eq!(sanitize_next("/"), "/");
    assert_eq!(sanitize_next("index.html"), "/");
}

#[test]
fn auth_mode_from_setting() {
    assert_eq!(AuthMode::from_env("disabled"), AuthMode::Disabled);
    assert_eq!(AuthMode::from_env("required"), AuthMode::Required);
    assert_eq!(AuthMode::from_env("Disabled"), AuthMode::Required);
    assert_eq!(AuthMode::from_env(""), AuthMode::Required);
    assert_eq!(AuthMode::Required.as_str(), "server");
    assert_eq!(AuthMode::Disabled.as_str(), "standalone");
    assert!(AuthMode::Required.auth_required());
    assert!(!AuthMode::Disabled.auth_required());
}

#[test]
fn server_config_defaults() {
    let config = ServerConfig::default();
    assert_eq!(config.bind, "127.0.0.1:8787");
    assert_eq!(config.db_path, "botracers.db");
    assert_eq!(config.artifacts_dir, "botracers_artifacts");
    assert_eq!(config.static_dir.as_deref(), Some("web-dist"));
    assert_eq!(config.auth_mode, AuthMode::Required);
    assert!(!config.cookie_secure);
    assert!(config.registration_enabled);
}

#[test]
fn escape_html_replaces_special_characters() {
    assert_eq!(
        escape_html("<a href=\"x\">Tom & Jerry's</a>"),
        "&lt;a href=&quot;x&quot;&gt;Tom &amp; Jerry&#39;s&lt;/a&gt;"
    );
    assert_eq!(escape_html("plain"), "plain");
    assert_eq!(escape_html("é<"), "é&lt;");
}

#[test]
fn login_redirect_encodes_target_and_error() {
    assert_eq!(
        next_login_with_error("/index.html", Some("registration_disabled")),
        "/login?next=%2Findex.html&error=registration_disabled"
    );
    assert_eq!(next_login_with_error("/a b", None), "/login?next=%2Fa%20b");
    assert_eq!(next_login_with_error("/é", None), "/login?next=%2F%C3%A9");
}

#[test]
fn session_cookies() {
    assert_eq!(
        session_cookie("abc", false),
        "racehub_session=abc; HttpOnly; Path=/; SameSite=Lax"
    );
    assert_eq!(
        session_cookie("abc", true),
        "racehub_session=abc; HttpOnly; Path=/; SameSite=Lax; Secure"
    );
    assert_eq!(
        expired_session_cookie(false),
        "racehub_session=; HttpOnly; Path=/; SameSite=Lax; Max-Age=0"
    );
    assert_eq!(
        expired_session_cookie(true),
        "racehub_session=; HttpOnly; Path=/; SameSite=Lax; Max-Age=0; Secure"
    );
}

#[test]
fn bearer_tokens() {
    assert_eq!(bearer_token("Bearer abc"), Some("abc".to_string()));
    assert_eq!(bearer_token("Bearer   abc  "), Some("abc".to_string()));
    assert_eq!(bearer_token("Bearer    "), None);
    assert_eq!(bearer_token("bearer abc"), None);
    assert_eq!(bearer_token("Basic abc"), None);
}

#[test]
fn cookie_tokens() {
    assert_eq!(
        session_cookie_token("racehub_session=tok"),
        Some("tok".to_string())
    );
    assert_eq!(
        session_cookie_token("a=1; racehub_session = tok ; b=2"),
        Some("tok".to_string())
    );
    assert_eq!(session_cookie_token("a=1; racehub_session="), None);
    assert_eq!(session_cookie_token("flag; racehub_session=tok"), None);
    assert_eq!(session_cookie_token("a=1;"), None);
    assert_eq!(session_cookie_token(""), None);
    assert_eq!(
        session_cookie_token("racehub_session=a=b"),
        Some("a=b".to_string())
    );
}

#[test]
fn request_token_prefers_bearer() {
    assert_eq!(
        request_token(Some("Bearer one"), Some("racehub_session=two")),
        Some("one".to_string())
    );
    assert_eq!(
        request_token(Some("Basic x"), Some("racehub_session=two")),
        Some("two".to_string())
    );
    assert_eq!(request_token(None, None), None);
}

#[test]
fn artifact_access_rules() {
    assert!(can_read_artifact(AuthMode::Required, 1, 1, false));
    assert!(can_read_artifact(AuthMode::Required, 1, 2, true));
    assert!(!can_read_artifact(AuthMode::Required, 1, 2, false));
    assert!(can_read_artifact(AuthMode::Disabled, 1, 2, false));
    assert!(can_change_artifact(AuthMode::Required, 1, 1));
    assert!(!can_change_artifact(AuthMode::Required, 1, 2));
    assert!(can_change_artifact(AuthMode::Disabled, 1, 2));
}

#[test]
fn new_user_checks() {
    assert!(check_new_user("alice", "password123").is_ok());
    let e = check_new_user("", "password123").unwrap_err();
    assert_eq!(e.status, ApiStatus::BadRequest);
    assert_eq!(e.message, "username must not be empty");
    let e = check_new_user("alice", "short").unwrap_err();
    assert_eq!(e.status, ApiStatus::BadRequest);
    assert_eq!(e.message, "password must be at least 8 chars");
}

#[test]
fn login_page_shows_form_for_target() {
    let page = render_login_page("/", None, None, true);
    assert!(page.contains("Sign in to RaceHub"));
    assert!(page.contains("name=\"next\" value=\"/"));
    assert!(page.contains("Create account"));
    assert!(page.contains("<a href=\"/register?next=%2F\">"));
    assert!(page.starts_with("<!doctype html><html lang=\"en\">"));
    assert!(page.ends_with("</main></body></html>"));
}

#[test]
fn login_page_hides_register_link_and_escapes() {
    let page = render_login_page("/x\"y", Some("<bob>"), Some("Invalid username or password"), false);
    assert!(!page.contains("Create account"));
    assert!(page.contains("<p class=\"error\">Invalid username or password</p>"));
    assert!(page.contains("value=\"/x&quot;y\""));
    assert!(page.contains("value=\"&lt;bob&gt;\""));
}

#[test]
fn register_page_links_back_to_login() {
    let page = render_register_page("/index.html", None, Some("username already exists"));
    assert!(page.contains("Create RaceHub account"));
    assert!(page.contains("<p class=\"error\">username already exists</p>"));
    assert!(page.contains("<a href=\"/login?next=%2Findex.html\">Sign in</a>"));
}

#[test]
fn registration_routes() {
    assert_eq!(
        register_page_or_redirect(AuthMode::Required, false, Some("/index.html")),
        Err("/login?next=%2Findex.html&error=registration_disabled".to_string())
    );
    assert_eq!(
        register_page_or_redirect(AuthMode::Disabled, true, None),
        Err("/login?next=%2F&error=registration_disabled".to_string())
    );
    let page = register_page_or_redirect(AuthMode::Required, true, Some("https://evil.com")).unwrap();
    assert!(page.contains("name=\"next\" value=\"/\""));
    let page = login_page_for(Some("/index.html"), Some("registration_disabled"), true);
    assert!(page.contains("<p class=\"error\">Registration is disabled</p>"));
    let page = login_page_for(None, Some("other"), false);
    assert!(!page.contains("class=\"error\""));
}

#[test]
fn api_gates() {
    let e = register_gate(AuthMode::Required, false).unwrap_err();
    assert_eq!(e.status, ApiStatus::Forbidden);
    assert_eq!(e.message, "registration is disabled");
    let e = register_gate(AuthMode::Disabled, true).unwrap_err();
    assert_eq!(e.status, ApiStatus::BadRequest);
    assert_eq!(e.message, "auth is disabled in standalone mode");
    assert!(register_gate(AuthMode::Required, true).is_ok());
    assert!(login_gate(AuthMode::Required).is_ok());
    assert_eq!(login_gate(AuthMode::Disabled).unwrap_err().status, ApiStatus::BadRequest);

    let local = request_identity(AuthMode::Disabled, None, None).unwrap().unwrap();
    assert_eq!(local.id, 1);
    assert_eq!(local.username, "local");
    assert_eq!(
        request_identity(AuthMode::Required, Some("Bearer t"), None).unwrap().unwrap_err(),
        "t"
    );
    let e = request_identity(AuthMode::Required, None, Some("a=b")).unwrap_err();
    assert_eq!(e.status, ApiStatus::Unauthorized);
    assert_eq!(e.message, "missing Authorization bearer token or session cookie");
}

#[test]
fn capabilities_reflect_mode() {
    let caps = capabilities(AuthMode::Required, true);
    assert!(caps.auth_required);
    assert_eq!(caps.mode, "server");
    assert!(caps.registration_enabled);
    let caps = capabilities(AuthMode::Disabled, false);
    assert!(!caps.auth_required);
    assert_eq!(caps.mode, "standalone");
    assert!(!caps.registration_enabled);
}

#[test]
fn upload_checks() {
    assert!(check_upload("car", "riscv32").is_ok());
    assert_eq!(check_upload("  ", "riscv32").unwrap_err().message, "artifact name must not be empty");
    assert_eq!(check_upload("car", "\t").unwrap_err().message, "artifact target must not be empty");
}

#[test]
fn trim_text_drops_surrounding_white_space() {
    assert_eq!(trim_text("  alice \t\n"), "alice");
    assert_eq!(trim_text("a b"), "a b");
    assert_eq!(trim_text(" \u{3000} "), "");
    assert_eq!(trim_text(""), "");
}

#[test]
fn logout_ends_every_session_the_request_carries() {
    let both = logout_tokens(
        AuthMode::Required,
        Some("Bearer abc"),
        Some("theme=dark; racehub_session=xyz"),
    )
    .unwrap();
    assert_eq!(both, vec!["abc".to_string(), "xyz".to_string()]);
    let cookie_only = logout_tokens(AuthMode::Required, None, Some("racehub_session=xyz")).unwrap();
    assert_eq!(cookie_only, vec!["xyz".to_string()]);
    let err = logout_tokens(AuthMode::Required, Some("Basic abc"), None).unwrap_err();
    assert_eq!(err.status, ApiStatus::Unauthorized);
    assert_eq!(err.message, "missing auth token/session cookie");
    assert!(logout_tokens(AuthMode::Disabled, Some("Bearer abc"), None).unwrap().is_empty());
}

#[test]
fn failed_registration_status() {
    assert_eq!(register_failure_status(ApiStatus::Internal), ApiStatus::Internal);
    assert_eq!(register_failure_status(ApiStatus::BadRequest), ApiStatus::BadRequest);
    assert_eq!(register_failure_status(ApiStatus::Unauthorized), ApiStatus::BadRequest);
}

#[test]
fn artifact_storage_names_and_listing_query() {
    assert_eq!(artifact_file_name(42), "artifact_42.elf");
    assert_eq!(artifact_file_name(-7), "artifact_-7.elf");
    assert!(artifact_list_query(AuthMode::Required)
        .contains("WHERE a.owner_user_id = ?1 OR a.is_public = 1 ORDER BY a.created_at DESC"));
    assert!(!artifact_list_query(AuthMode::Disabled).contains("WHERE"));
    assert!(artifact_list_query(AuthMode::Disabled).ends_with("ORDER BY a.created_at DESC"));
}

#[test]
fn unauthenticated_game_entry_shows_login_in_required_mode() {
    let page = game_entry_login_page(AuthMode::Required, false, Some("/"), true).expect("login page");
    assert!(page.contains("Sign in to RaceHub"));
    assert!(page.contains("name=\"next\" value=\"/\""));
    let page = game_entry_login_page(AuthMode::Required, false, None, true).expect("login page");
    assert!(page.contains("name=\"next\" value=\"/index.html\""));
}

#[test]
fn authenticated_game_entry_serves_index() {
    assert!(game_entry_login_page(AuthMode::Required, true, Some("/"), true).is_none());
    assert!(game_entry_login_page(AuthMode::Disabled, false, Some("/"), true).is_none());
}

#[test]
fn web_login_success_sets_cookie_and_redirects() {
    match web_login_answer(AuthMode::Required, Some("/index.html"), "alice", Some("tok"), true, false) {
        WebAnswer::Redirect { location, cookie } => {
            assert_eq!(location, "/index.html");
            assert!(cookie.expect("set-cookie").contains("racehub_session="));
        }
        _ => panic!("expected a redirect"),
    }
}

#[test]
fn web_login_failure_renders_error() {
    match web_login_answer(AuthMode::Required, Some("/index.html"), " alice ", None, true, false) {
        WebAnswer::Page { status, html } => {
            assert_eq!(status, 401);
            assert!(html.contains("Invalid username or password"));
            assert!(html.contains("value=\"alice\""));
        }
        _ => panic!("expected the login page"),
    }
    match web_login_answer(AuthMode::Disabled, Some("//evil"), "x", None, true, false) {
        WebAnswer::Redirect { location, cookie } => {
            assert_eq!(location, "/");
            assert!(cookie.is_none());
        }
        _ => panic!("expected a redirect"),
    }
}

#[test]
fn api_login_still_returns_json_and_cookie() {
    assert!(login_gate(AuthMode::Required).is_ok());
    assert!(session_cookie("tok", false).starts_with("racehub_session=tok"));
}

#[test]
fn capabilities_include_registration_enabled() {
    let caps = capabilities(AuthMode::Required, false);
    assert!(caps.auth_required);
    assert!(!caps.registration_enabled);
}

#[test]
fn api_register_blocked_when_registration_disabled() {
    let err = register_gate(AuthMode::Required, false).unwrap_err();
    assert_eq!(err.status, ApiStatus::Forbidden);
    assert_eq!(err.status.code(), 403);
    assert_eq!(err.message, "registration is disabled");
}

#[test]
fn register_flow_creates_session_and_redirects() {
    let created = Ok(Ok("tok".to_string()));
    match web_register_answer(AuthMode::Required, true, Some("/index.html"), "bob", created, false) {
        WebAnswer::Redirect { location, cookie } => {
            assert_eq!(location, "/index.html");
            assert!(cookie.is_some());
        }
        _ => panic!("expected a redirect"),
    }
}

#[test]
fn register_routes_redirect_when_disabled() {
    assert_eq!(
        register_page_or_redirect(AuthMode::Required, false, Some("/index.html")).unwrap_err(),
        "/login?next=%2Findex.html&error=registration_disabled"
    );
    let created = Ok(Ok("tok".to_string()));
    match web_register_answer(AuthMode::Required, false, Some("/index.html"), "bob", created, false) {
        WebAnswer::Redirect { location, cookie } => {
            assert_eq!(location, "/login?next=%2Findex.html&error=registration_disabled");
            assert!(cookie.is_none());
        }
        _ => panic!("expected a redirect"),
    }
}

#[test]
fn register_form_errors_keep_the_name() {
    let refused = Err(ApiError::new(ApiStatus::BadRequest, "username already exists"));
    match web_register_answer(AuthMode::Required, true, Some("/"), " bob ", refused, false) {
        WebAnswer::Page { status, html } => {
            assert_eq!(status, 400);
            assert!(html.contains("username already exists"));
            assert!(html.contains("value=\"bob\""));
        }
        _ => panic!("expected the registration page"),
    }
    let failed = Err(ApiError::new(ApiStatus::Internal, "failed"));
    match web_register_answer(AuthMode::Required, true, Some("/"), "bob", failed, false) {
        WebAnswer::Page { status, .. } => assert_eq!(status, 500),
        _ => panic!("expected the registration page"),
    }
    let no_session = Ok(Err(ApiError::new(ApiStatus::Unauthorized, "invalid credentials")));
    match web_register_answer(AuthMode::Required, true, Some("/"), "bob", no_session, false) {
        WebAnswer::Refused(e) => assert_eq!(e.status.code(), 401),
        _ => panic!("expected a refusal"),
    }
}

#[test]
fn login_page_hides_register_link_when_disabled() {
    assert!(!login_page_for(Some("/"), None, false).contains("Create account"));
    assert!(login_page_for(Some("/"), None, true).contains("Create account"));
}

#[test]
fn list_artifacts_in_required_mode_shows_own_and_public_others() {
    assert!(artifact_list_query(AuthMode::Required).contains("a.owner_user_id = ?1 OR a.is_public = 1"));
}

#[test]
fn list_artifacts_hides_private_others() {
    assert!(artifact_list_query(AuthMode::Required).contains("WHERE"));
    assert!(!can_read_artifact(AuthMode::Required, 2, 1, false));
}

#[test]
fn download_public_artifact_allowed_for_non_owner() {
    assert!(can_read_artifact(AuthMode::Required, 2, 1, true));
    let row = Some((2, "artifact_1.elf".to_string(), 1));
    assert_eq!(download_answer(AuthMode::Required, row, 1).unwrap(), "artifact_1.elf");
}

#[test]
fn download_private_artifact_denied_for_non_owner() {
    assert!(!can_read_artifact(AuthMode::Required, 2, 1, false));
    let row = Some((2, "artifact_1.elf".to_string(), 0));
    let err = download_answer(AuthMode::Required, row, 1).unwrap_err();
    assert_eq!(err.status.code(), 401);
    assert_eq!(err.message, "artifact is not owned by current user");
    let own = Some((1, "artifact_1.elf".to_string(), 0));
    assert!(download_answer(AuthMode::Required, own, 1).is_ok());
    let anyone = Some((2, "artifact_1.elf".to_string(), 0));
    assert!(download_answer(AuthMode::Disabled, anyone, 1).is_ok());
    let err = download_answer(AuthMode::Required, None, 1).unwrap_err();
    assert_eq!(err.status.code(), 404);
    assert_eq!(err.message, "artifact not found");
}

#[test]
fn owner_can_toggle_visibility() {
    assert!(can_change_artifact(AuthMode::Required, 1, 1));
    assert_eq!(visibility_answer(AuthMode::Required, Some(1), 1, true).unwrap(), 1);
    assert_eq!(visibility_answer(AuthMode::Required, Some(1), 1, false).unwrap(), 0);
}

#[test]
fn non_owner_cannot_toggle_visibility() {
    assert!(!can_change_artifact(AuthMode::Required, 2, 1));
    let err = visibility_answer(AuthMode::Required, Some(2), 1, true).unwrap_err();
    assert_eq!(err.status.code(), 401);
    assert_eq!(err.message, "artifact is not owned by current user");
    let err = visibility_answer(AuthMode::Required, None, 1, true).unwrap_err();
    assert_eq!(err.status.code(), 404);
}

#[test]
fn only_the_owner_deletes() {
    let row = Some((1, "artifact_3.elf".to_string()));
    assert_eq!(delete_answer(AuthMode::Required, row, 1).unwrap(), "artifact_3.elf");
    let row = Some((2, "artifact_3.elf".to_string()));
    assert_eq!(delete_answer(AuthMode::Required, row, 1).unwrap_err().status.code(), 401);
    let row = Some((2, "artifact_3.elf".to_string()));
    assert!(delete_answer(AuthMode::Disabled, row, 1).is_ok());
    assert_eq!(delete_answer(AuthMode::Required, None, 1).unwrap_err().status.code(), 404);
}

#[test]
fn listed_artifact_rows_become_summaries() {
    let own = artifact_summary(
        7,
        3,
        7,
        "alice".to_string(),
        "bot".to_string(),
        None,
        "riscv32imafc".to_string(),
        0,
        "2024-01-01T00:00:00Z".to_string(),
    );
    assert!(own.owned_by_me);
    assert!(!own.is_public);
    assert_eq!(own.id, 3);
    assert_eq!(own.owner_username, "alice");
    let other = artifact_summary(
        7,
        4,
        8,
        "bob".to_string(),
        "racer".to_string(),
        Some("fast".to_string()),
        "riscv32imafc".to_string(),
        1,
        "2024-01-02T00:00:00Z".to_string(),
    );
    assert!(!other.owned_by_me);
    assert!(other.is_public);
    assert_eq!(other.note.as_deref(), Some("fast"));
}
