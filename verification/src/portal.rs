//! The race client's conversation with a race hub: what it asks for next
//! after each player command and each reply, and what it tells the player.
//! The requests themselves are sent by the host, which hands the replies
//! back as events.
use vstd::prelude::*;

use crate::protocol::{ArtifactSummary, LoginResponse, ServerCapabilities, UploadArtifactResponse};
use std::collections::HashMap;

use crate::text::{bool_text, push_bool, push_decimal, push_signed, decimal, signed_decimal};

verus! {

/// What the player asks of the hub.
#[derive(Debug, Clone, Copy, PartialEq, Eq, Structural)]
pub enum WebApiCommand {
    RefreshCapabilities,
    LoadArtifacts,
    UploadArtifact,
}

/// A reply of the hub, or why there is none.
#[derive(Debug)]
pub enum WebApiEvent {
    Capabilities(Result<ServerCapabilities, String>),
    Login(Result<LoginResponse, String>),
    Artifacts(Result<Vec<ArtifactSummary>, String>),
    UploadResult(Result<UploadArtifactResponse, String>),
}

/// The request the host is to send next.
#[derive(Debug)]
pub enum WebAction {
    /// Ask for the hub's capabilities.
    FetchCapabilities,
    /// Log in with these credentials.
    FetchLogin { username: String, password: String },
    /// List the programs, with this session token if any.
    FetchArtifacts { token: Option<String> },
    /// Let the player pick a program file and upload it with this token.
    PickArtifactToUpload { token: Option<String> },
}

/// The client's knowledge of the hub.
#[derive(Debug)]
pub struct WebPortalState {
    pub server_url: String,
    pub standalone_mode: bool,
    pub auth_required: Option<bool>,
    pub token: Option<String>,
    pub cli_credentials: Option<(String, String)>,
    pub artifacts: Vec<ArtifactSummary>,
    pub status_message: Option<String>,
}

/// The text of an optional string.
pub open spec fn opt_text(s: Option<String>) -> Option<Seq<char>> {
    match s {
        Some(t) => Some(t@),
        None => None,
    }
}

/// The session token to send: none when the hub needs no login, the
/// stored token when it does, and an error when there is no token yet or
/// the hub's needs are not known yet.
pub open spec fn auth_token_of(auth_required: Option<bool>, token: Option<Seq<char>>) -> Result<
    Option<Seq<char>>,
    Seq<char>,
> {
    match auth_required {
        Some(true) => match token {
            Some(t) => Ok(Some(t)),
            None => Err("Login required"@),
        },
        Some(false) => Ok(None),
        None => Err("Server capabilities not loaded yet"@),
    }
}

/// The text of an action's token, if the action carries one.
pub open spec fn action_token(a: WebAction) -> Option<Option<Seq<char>>> {
    match a {
        WebAction::FetchArtifacts { token } => Some(opt_text(token)),
        WebAction::PickArtifactToUpload { token } => Some(opt_text(token)),
        _ => None,
    }
}

fn clone_text(s: &Option<String>) -> (r: Option<String>)
    ensures
        opt_text(r) == opt_text(*s),
{
    match s {
        Some(t) => Some(t.clone()),
        None => None,
    }
}

fn text_of(s: &str) -> (r: String)
    ensures
        r@ == s@,
{
    String::from_str(s)
}

impl WebPortalState {
    /// A client of the hub at `server_url` that knows nothing of it yet.
    pub fn new(server_url: String) -> (r: Self)
        ensures
            r.server_url@ == server_url@,
            !r.standalone_mode,
            r.auth_required is None,
            r.token is None,
            r.cli_credentials is None,
            r.artifacts@.len() == 0,
            r.status_message is None,
    {
        WebPortalState {
            server_url,
            standalone_mode: false,
            auth_required: None,
            token: None,
            cli_credentials: None,
            artifacts: Vec::new(),
            status_message: None,
        }
    }
}

/// The session token to send with the next request (see [`auth_token_of`]).
pub fn maybe_auth_token(web_state: &WebPortalState) -> (r: Result<Option<String>, String>)
    ensures
        match (r, auth_token_of(web_state.auth_required, opt_text(web_state.token))) {
            (Ok(t), Ok(u)) => opt_text(t) == u,
            (Err(e), Err(f)) => e@ == f,
            _ => false,
        },
{
    match web_state.auth_required {
        Some(true) => match &web_state.token {
            Some(t) => Ok(Some(t.clone())),
            None => Err(text_of("Login required")),
        },
        Some(false) => Ok(None),
        None => Err(text_of("Server capabilities not loaded yet")),
    }
}

/// Handles a player command: asks for the capabilities first when they are
/// not known, reports when no session token can be sent, and otherwise
/// asks for the listing or for a file to upload.
pub fn handle_web_api_command(web_state: &mut WebPortalState, command: WebApiCommand) -> (r: Option<WebAction>)
    ensures
        final(web_state).auth_required == old(web_state).auth_required,
        opt_text(final(web_state).token) == opt_text(old(web_state).token),
        final(web_state).artifacts@ == old(web_state).artifacts@,
        ({
            let known = old(web_state).auth_required is Some;
            let tok = auth_token_of(old(web_state).auth_required, opt_text(old(web_state).token));
            match command {
                WebApiCommand::RefreshCapabilities => r matches Some(WebAction::FetchCapabilities)
                    && opt_text(final(web_state).status_message) == Some("Loading server capabilities..."@),
                _ => if !known {
                    r matches Some(WebAction::FetchCapabilities) && opt_text(final(web_state).status_message)
                        == Some("Checking server capabilities first..."@)
                } else {
                    match tok {
                        Err(e) => r is None && opt_text(final(web_state).status_message) == Some(e),
                        Ok(t) => if command == WebApiCommand::LoadArtifacts {
                            r matches Some(a) && a is FetchArtifacts && action_token(a) == Some(t)
                                && opt_text(final(web_state).status_message) == Some("Loading artifacts..."@)
                        } else {
                            r matches Some(a) && a is PickArtifactToUpload && action_token(a) == Some(t)
                                && opt_text(final(web_state).status_message) == opt_text(
                                old(web_state).status_message,
                            )
                        },
                    }
                },
            }
        }),
{
    match command {
        WebApiCommand::RefreshCapabilities => {
            web_state.status_message = Some(text_of("Loading server capabilities..."));
            Some(WebAction::FetchCapabilities)
        },
        _ => {
            if web_state.auth_required.is_none() {
                web_state.status_message = Some(text_of("Checking server capabilities first..."));
                return Some(WebAction::FetchCapabilities);
            }
            let token = match maybe_auth_token(web_state) {
                Ok(token) => token,
                Err(error) => {
                    web_state.status_message = Some(error);
                    return None;
                },
            };
            if command == WebApiCommand::LoadArtifacts {
                web_state.status_message = Some(text_of("Loading artifacts..."));
                Some(WebAction::FetchArtifacts { token })
            } else {
                Some(WebAction::PickArtifactToUpload { token })
            }
        },
    }
}

/// The status shown while `name` is being uploaded.
pub fn uploading_message(name: &str) -> (r: String)
    ensures
        r@ == "Uploading '"@ + name@ + "'..."@,
{
    let mut m = text_of("Uploading '");
    m.append(name);
    m.append("'...");
    m
}

/// `prefix` followed by `detail`.
fn prefixed(prefix: &str, detail: &str) -> (r: String)
    ensures
        r@ == prefix@ + detail@,
{
    let mut m = text_of(prefix);
    m.append(detail);
    m
}

/// The listing request to send after a change, when a token can be sent.
pub open spec fn follow_up_listing(auth_required: Option<bool>, token: Option<Seq<char>>, r: Option<WebAction>) -> bool {
    match auth_token_of(auth_required, token) {
        Ok(t) => r matches Some(a) && a is FetchArtifacts && action_token(a) == Some(t),
        Err(_) => r is None,
    }
}

/// Handles a reply of the hub: records what it says, tells the player,
/// and asks for what comes next (a login with the command-line credentials
/// when the hub needs one and there is no session, otherwise the listing
/// when a token can be sent).
pub fn process_web_api_event(web_state: &mut WebPortalState, event: WebApiEvent) -> (r: Option<WebAction>)
    ensures
        final(web_state).server_url@ == old(web_state).server_url@,
        ({
            let s0 = *old(web_state);
            let s1 = *final(web_state);
            match event {
                WebApiEvent::Capabilities(Ok(caps)) => {
                    &&& s1.auth_required == Some(caps.auth_required)
                    &&& opt_text(s1.token) == opt_text(s0.token)
                    &&& s1.artifacts@ == s0.artifacts@
                    &&& if caps.auth_required && s0.token is None && s0.cli_credentials is Some {
                        let (u, p) = s0.cli_credentials->0;
                        &&& r matches Some(WebAction::FetchLogin { username, password }) && username@ == u@
                            && password@ == p@
                        &&& opt_text(s1.status_message) == Some("Logging in as '"@ + u@ + "'..."@)
                    } else {
                        &&& follow_up_listing(s1.auth_required, opt_text(s1.token), r)
                        &&& opt_text(s1.status_message) == Some(
                            "Connected: mode="@ + caps.mode@ + ", auth_required="@ + bool_text(caps.auth_required),
                        )
                    }
                },
                WebApiEvent::Capabilities(Err(e)) => {
                    &&& r is None
                    &&& s1.auth_required == s0.auth_required
                    &&& opt_text(s1.token) == opt_text(s0.token)
                    &&& opt_text(s1.status_message) == Some("Capability check failed: "@ + e@)
                },
                WebApiEvent::Login(Ok(login)) => {
                    &&& s1.auth_required == s0.auth_required
                    &&& opt_text(s1.token) == Some(login.token@)
                    &&& r matches Some(a) && a is FetchArtifacts && action_token(a) == Some(Some(login.token@))
                    &&& opt_text(s1.status_message) == Some("Logged in as "@ + login.user.username@)
                },
                WebApiEvent::Login(Err(e)) => {
                    &&& r is None
                    &&& opt_text(s1.token) == opt_text(s0.token)
                    &&& opt_text(s1.status_message) == Some("Login failed: "@ + e@)
                },
                WebApiEvent::Artifacts(Ok(list)) => {
                    &&& r is None
                    &&& s1.artifacts@ == list@
                    &&& opt_text(s1.status_message) == Some("Loaded "@ + decimal(list@.len()) + " artifacts"@)
                },
                WebApiEvent::Artifacts(Err(e)) => {
                    &&& r is None
                    &&& s1.artifacts@ == s0.artifacts@
                    &&& opt_text(s1.status_message) == Some("Loading artifacts failed: "@ + e@)
                },
                WebApiEvent::UploadResult(Ok(upload)) => {
                    &&& s1.auth_required == s0.auth_required
                    &&& opt_text(s1.token) == opt_text(s0.token)
                    &&& follow_up_listing(s1.auth_required, opt_text(s1.token), r)
                    &&& opt_text(s1.status_message) == Some(
                        "Uploaded artifact #"@ + signed_decimal(upload.artifact_id as int),
                    )
                },
                WebApiEvent::UploadResult(Err(e)) => {
                    &&& r is None
                    &&& opt_text(s1.status_message) == Some("Upload failed: "@ + e@)
                },
            }
        }),
{
    match event {
        WebApiEvent::Capabilities(Ok(caps)) => {
            web_state.auth_required = Some(caps.auth_required);
            let mut m = text_of("Connected: mode=");
            m.append(caps.mode.as_str());
            m.append(", auth_required=");
            push_bool(&mut m, caps.auth_required);
            web_state.status_message = Some(m);
            if caps.auth_required && web_state.token.is_none() {
                match &web_state.cli_credentials {
                    Some(credentials) => {
                        let username = credentials.0.clone();
                        let password = credentials.1.clone();
                        let mut m = text_of("Logging in as '");
                        m.append(username.as_str());
                        m.append("'...");
                        web_state.status_message = Some(m);
                        return Some(WebAction::FetchLogin { username, password });
                    },
                    None => {},
                }
            }
            match maybe_auth_token(web_state) {
                Ok(token) => Some(WebAction::FetchArtifacts { token }),
                Err(_) => None,
            }
        },
        WebApiEvent::Capabilities(Err(error)) => {
            web_state.status_message = Some(prefixed("Capability check failed: ", error.as_str()));
            None
        },
        WebApiEvent::Login(Ok(login)) => {
            let token = login.token.clone();
            web_state.token = Some(login.token);
            web_state.status_message = Some(prefixed("Logged in as ", login.user.username.as_str()));
            Some(WebAction::FetchArtifacts { token: Some(token) })
        },
        WebApiEvent::Login(Err(error)) => {
            web_state.status_message = Some(prefixed("Login failed: ", error.as_str()));
            None
        },
        WebApiEvent::Artifacts(Ok(artifacts)) => {
            let count = artifacts.len();
            web_state.artifacts = artifacts;
            let mut m = text_of("Loaded ");
            push_decimal(&mut m, count as u64);
            m.append(" artifacts");
            web_state.status_message = Some(m);
            None
        },
        WebApiEvent::Artifacts(Err(error)) => {
            web_state.status_message = Some(prefixed("Loading artifacts failed: ", error.as_str()));
            None
        },
        WebApiEvent::UploadResult(Ok(upload)) => {
            let mut m = text_of("Uploaded artifact #");
            push_signed(&mut m, upload.artifact_id);
            web_state.status_message = Some(m);
            match maybe_auth_token(web_state) {
                Ok(token) => Some(WebAction::FetchArtifacts { token }),
                Err(_) => None,
            }
        },
        WebApiEvent::UploadResult(Err(error)) => {
            web_state.status_message = Some(prefixed("Upload failed: ", error.as_str()));
            None
        },
    }
}

/// The address of `path` on the hub at `base`, without doubled slashes from
/// the base's trailing ones.
pub fn web_api_url(base: &str, path: &str) -> (r: String)
    ensures
        r@ == trim_slashes(base@) + path@,
{
    let n = base.unicode_len();
    let mut end = n;
    assert(base@.subrange(0, n as int) =~= base@);
    while end > 0 && base.get_char(end - 1) == '/'
        invariant
            end <= n,
            n == base@.len(),
            trim_slashes(base@) == trim_slashes(base@.subrange(0, end as int)),
        decreases end,
    {
        assert(base@.subrange(0, end as int).drop_last() =~= base@.subrange(0, end - 1));
        end = end - 1;
    }
    let mut url = String::from_str(base.substring_char(0, end));
    url.append(path);
    url
}

/// `s` without its trailing `/` characters.
pub open spec fn trim_slashes(s: Seq<char>) -> Seq<char>
    decreases s.len(),
{
    if s.len() > 0 && s.last() == '/' {
        trim_slashes(s.drop_last())
    } else {
        s
    }
}

/// The `Authorization` header value for session `token`.
pub fn bearer_header(token: &str) -> (r: String)
    ensures
        r@ == "Bearer "@ + token@,
{
    prefixed("Bearer ", token)
}

/// A failed HTTP reply as the player sees it: status code, status text,
/// and the body without surrounding white space.
pub fn response_error(status: u16, status_text: &str, body: &str) -> (r: String)
    ensures
        r@ == "HTTP "@ + decimal(status as nat) + " "@ + status_text@ + ": "@ + crate::racehub::trimmed(body@),
{
    let mut m = text_of("HTTP ");
    push_decimal(&mut m, status as u64);
    m.append(" ");
    m.append(status_text);
    m.append(": ");
    let cs = crate::racehub::chars_of(body);
    let (a, b) = crate::racehub::trim_bounds(&cs, 0, cs.len());
    assert(cs@.subrange(0, cs@.len() as int) =~= body@);
    m.append(body.substring_char(a, b));
    m
}

/// Who drives a car.
#[derive(Debug, Clone, Copy, PartialEq, Eq, Structural)]
pub enum DriverType {
    /// The program uploaded to the hub under this id.
    RemoteArtifact { id: i64 },
}

impl DriverType {
    /// How the driver is listed.
    pub fn label(&self) -> (r: String)
        ensures
            r@ == (match *self {
                DriverType::RemoteArtifact { id } => "Artifact: #"@ + signed_decimal(id as int),
            }),
    {
        match self {
            DriverType::RemoteArtifact { id } => {
                let mut m = text_of("Artifact: #");
                push_signed(&mut m, *id);
                m
            },
        }
    }
}

/// Phase of the race.
#[derive(Debug, Clone, Copy, PartialEq, Eq, Structural)]
pub enum SimState {
    PreRace,
    Racing,
    Paused,
}

/// The phase after the start button is pressed: the race starts, pauses,
/// or resumes.
pub open spec fn after_start_button(state: SimState) -> SimState {
    match state {
        SimState::PreRace => SimState::Racing,
        SimState::Racing => SimState::Paused,
        SimState::Paused => SimState::Racing,
    }
}

/// The phase after the start button is pressed in `state`.
pub fn start_button_next(state: SimState) -> (r: SimState)
    ensures
        r == after_start_button(state),
{
    match state {
        SimState::PreRace => SimState::Racing,
        SimState::Racing => SimState::Paused,
        SimState::Paused => SimState::Racing,
    }
}

/// The start button's caption in `state`.
pub fn start_button_label(state: SimState) -> (r: &'static str)
    ensures
        state == SimState::PreRace ==> r@ == "Start"@,
        state == SimState::Racing ==> r@ == "Pause"@,
        state == SimState::Paused ==> r@ == "Resume"@,
{
    match state {
        SimState::PreRace => "Start",
        SimState::Racing => "Pause",
        SimState::Paused => "Resume",
    }
}

/// Once the race has started, the start button toggles between racing and
/// paused, and never goes back to before the race.
pub proof fn lemma_start_button_toggles(state: SimState)
    ensures
        after_start_button(state) != SimState::PreRace,
        state != SimState::PreRace ==> after_start_button(after_start_button(state)) == state,
{
}

/// Downloads of car programs under way: each request id maps to the
/// driver it is for.
#[derive(Debug)]
pub struct ArtifactFetchPipeline {
    pub pending: HashMap<u64, DriverType>,
    pub next_request_id: u64,
    pub status_message: Option<String>,
}

/// A program download to start.
#[derive(Debug)]
pub struct ArtifactRequest {
    pub request_id: u64,
    pub artifact_id: i64,
    pub token: Option<String>,
}

/// A finished download: its request id, the program's name, and its bytes
/// or why there are none.
#[derive(Debug)]
pub struct CompileResult {
    pub id: u64,
    pub binary: String,
    pub result: Result<Vec<u8>, String>,
}

impl ArtifactFetchPipeline {
    /// No downloads yet; the first request gets id 0.
    pub fn new() -> (r: Self)
        ensures
            r.pending@ == Map::<u64, DriverType>::empty(),
            r.next_request_id == 0,
            r.status_message is None,
    {
        ArtifactFetchPipeline { pending: HashMap::new(), next_request_id: 0, status_message: None }
    }
}

/// Asks for a car driven by `driver`: only before the race; the request
/// takes the next id and stays pending until its download finishes, unless
/// no session token can be sent, which is reported instead.
pub fn request_artifact(
    pipeline: &mut ArtifactFetchPipeline,
    web_state: &WebPortalState,
    driver: DriverType,
    state: SimState,
) -> (r: Option<ArtifactRequest>)
    requires
        old(pipeline).next_request_id < u64::MAX,
    ensures
        state != SimState::PreRace ==> r is None && final(pipeline).pending@ == old(pipeline).pending@
            && final(pipeline).next_request_id == old(pipeline).next_request_id && opt_text(
            final(pipeline).status_message,
        ) == opt_text(old(pipeline).status_message),
        state == SimState::PreRace ==> {
            let id = old(pipeline).next_request_id;
            let DriverType::RemoteArtifact { id: artifact } = driver;
            &&& final(pipeline).next_request_id == id + 1
            &&& match auth_token_of(web_state.auth_required, opt_text(web_state.token)) {
                Ok(t) => {
                    &&& r matches Some(req) && req.request_id == id && req.artifact_id == artifact
                        && opt_text(req.token) == t
                    &&& final(pipeline).pending@ == old(pipeline).pending@.insert(id, driver)
                    &&& opt_text(final(pipeline).status_message) == Some(
                        "Downloading artifact #"@ + signed_decimal(artifact as int) + "..."@,
                    )
                },
                Err(e) => {
                    &&& r is None
                    &&& final(pipeline).pending@ == old(pipeline).pending@.insert(id, driver).remove(id)
                    &&& opt_text(final(pipeline).status_message) == Some(e)
                },
            }
        },
{
    if state != SimState::PreRace {
        return None;
    }
    let request_id = pipeline.next_request_id;
    pipeline.next_request_id = request_id + 1;
    pipeline.pending.insert(request_id, driver);
    let DriverType::RemoteArtifact { id } = driver;
    match maybe_auth_token(web_state) {
        Err(error) => {
            pipeline.pending.remove(&request_id);
            pipeline.status_message = Some(error);
            None
        },
        Ok(token) => {
            let mut m = text_of("Downloading artifact #");
            push_signed(&mut m, id);
            m.append("...");
            pipeline.status_message = Some(m);
            Some(ArtifactRequest { request_id, artifact_id: id, token })
        },
    }
}

/// Takes a finished download: unknown request ids are ignored; a program
/// that arrives before the race is handed back with its driver to spawn a
/// car, one that arrives later is discarded; a failure is reported.
pub fn take_fetch_result(pipeline: &mut ArtifactFetchPipeline, result: CompileResult, state: SimState) -> (r:
    Option<(DriverType, Vec<u8>)>)
    ensures
        final(pipeline).pending@ == old(pipeline).pending@.remove(result.id),
        final(pipeline).next_request_id == old(pipeline).next_request_id,
        !old(pipeline).pending@.contains_key(result.id) ==> r is None && opt_text(final(pipeline).status_message)
            == opt_text(old(pipeline).status_message),
        old(pipeline).pending@.contains_key(result.id) ==> match result.result {
            Ok(bytes) => if state == SimState::PreRace {
                &&& r matches Some((d, b)) && d == old(pipeline).pending@[result.id] && b@ == bytes@
                &&& opt_text(final(pipeline).status_message) == Some(
                    "Loaded and spawned '"@ + result.binary@ + "'"@,
                )
            } else {
                &&& r is None
                &&& opt_text(final(pipeline).status_message) == Some(
                    "Discarded compiled '"@ + result.binary@ + "' result (race already started)"@,
                )
            },
            Err(e) => {
                &&& r is None
                &&& opt_text(final(pipeline).status_message) == Some(
                    "Artifact load failed for '"@ + result.binary@ + "': "@ + e@,
                )
            },
        },
{
    let driver = match pipeline.pending.remove(&result.id) {
        Some(d) => d,
        None => {
            return None;
        },
    };
    match result.result {
        Ok(elf_bytes) => {
            if state != SimState::PreRace {
                let mut m = text_of("Discarded compiled '");
                m.append(result.binary.as_str());
                m.append("' result (race already started)");
                pipeline.status_message = Some(m);
                return None;
            }
            let mut m = text_of("Loaded and spawned '");
            m.append(result.binary.as_str());
            m.append("'");
            pipeline.status_message = Some(m);
            Some((driver, elf_bytes))
        },
        Err(error) => {
            let mut m = text_of("Artifact load failed for '");
            m.append(result.binary.as_str());
            m.append("': ");
            m.append(error.as_str());
            pipeline.status_message = Some(m);
            None
        },
    }
}

/// How a program is listed: `name [#id] by owner (public|private)`.
pub fn artifact_label(artifact: &ArtifactSummary) -> (r: String)
    ensures
        r@ == artifact.name@ + " [#"@ + signed_decimal(artifact.id as int) + "] by "@ + artifact.owner_username@
            + " ("@ + (if artifact.is_public {
            "public"@
        } else {
            "private"@
        }) + ")"@,
{
    let mut m = String::new();
    m.append(artifact.name.as_str());
    m.append(" [#");
    push_signed(&mut m, artifact.id);
    m.append("] by ");
    m.append(artifact.owner_username.as_str());
    m.append(" (");
    m.append(if artifact.is_public { "public" } else { "private" });
    m.append(")");
    m
}

/// The visibility button of a listed program: only its owner gets one,
/// labelled with the change it makes and carrying the new visibility.
pub fn visibility_toggle(artifact: &ArtifactSummary) -> (r: Option<(&'static str, bool)>)
    ensures
        match r {
            Some((text, public)) => artifact.owned_by_me && public == !artifact.is_public && text@ == (if artifact.is_public {
                "Make Private"@
            } else {
                "Make Public"@
            }),
            None => !artifact.owned_by_me,
        },
{
    if !artifact.owned_by_me {
        return None;
    }
    let text = if artifact.is_public { "Make Private" } else { "Make Public" };
    Some((text, !artifact.is_public))
}

/// How a car is listed: `name [driver]`.
pub fn car_label(name: &str, driver: &DriverType) -> (r: String)
    ensures
        r@ == name@ + " ["@ + match *driver {
            DriverType::RemoteArtifact { id } => "Artifact: #"@ + signed_decimal(id as int),
        } + "]"@,
{
    let mut m = text_of(name);
    m.append(" [");
    let label = driver.label();
    m.append(label.as_str());
    m.append("]");
    m
}

} // verus!
