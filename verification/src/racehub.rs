//! The decisions of the race hub server: its modes and configuration, the
//! redirect targets and pages it builds, how it reads session tokens from
//! request headers, and who may read or change an uploaded program.
//! Storage, password hashing and HTTP plumbing stay outside.
use vstd::prelude::*;
use vstd::string::StringSliceAdditionalSpecFns;

use crate::text::{push_signed, signed_decimal};

verus! {

/// Whether the hub authenticates its users.
#[derive(Debug, Clone, Copy, PartialEq, Eq, Structural)]
pub enum AuthMode {
    /// Every request needs a logged-in user.
    Required,
    /// A single local user; logins are refused.
    Disabled,
}

/// The characters of `s`.
pub fn chars_of(s: &str) -> (r: Vec<char>)
    ensures
        r@ == s@,
{
    let n = s.unicode_len();
    let mut out: Vec<char> = Vec::new();
    let mut i: usize = 0;
    while i < n
        invariant
            i <= n,
            n == s@.len(),
            out@ == s@.subrange(0, i as int),
        decreases n - i,
    {
        out.push(s.get_char(i));
        i = i + 1;
        assert(out@ =~= s@.subrange(0, i as int));
    }
    assert(s@.subrange(0, n as int) =~= s@);
    out
}

/// Whether `a` and `b` hold the same characters.
pub fn same_text(a: &str, b: &str) -> (r: bool)
    ensures
        r == (a@ == b@),
{
    let n = a.unicode_len();
    if n != b.unicode_len() {
        return false;
    }
    let mut i: usize = 0;
    while i < n
        invariant
            i <= n,
            n == a@.len(),
            n == b@.len(),
            forall|j: int| 0 <= j < i ==> a@[j] == b@[j],
        decreases n - i,
    {
        if a.get_char(i) != b.get_char(i) {
            return false;
        }
        i = i + 1;
    }
    assert(a@ =~= b@);
    true
}

/// The name under which clients see `mode`.
pub open spec fn mode_name(mode: AuthMode) -> Seq<char> {
    match mode {
        AuthMode::Required => "server"@,
        AuthMode::Disabled => "standalone"@,
    }
}

impl AuthMode {
    /// The mode named by the setting `value`: `"disabled"` turns
    /// authentication off; anything else requires it.
    pub fn from_env(value: &str) -> (r: Self)
        ensures
            r == (if value@ == "disabled"@ {
                AuthMode::Disabled
            } else {
                AuthMode::Required
            }),
    {
        if same_text(value, "disabled") {
            AuthMode::Disabled
        } else {
            AuthMode::Required
        }
    }

    /// The mode's name as clients see it.
    pub fn as_str(self) -> (r: &'static str)
        ensures
            r@ == mode_name(self),
    {
        match self {
            AuthMode::Required => "server",
            AuthMode::Disabled => "standalone",
        }
    }

    /// Whether requests need a logged-in user.
    pub fn auth_required(self) -> (r: bool)
        ensures
            r == (self == AuthMode::Required),
    {
        match self {
            AuthMode::Required => true,
            AuthMode::Disabled => false,
        }
    }
}

/// How the hub is started. Paths are kept as text.
#[derive(Debug, Clone)]
pub struct ServerConfig {
    pub bind: String,
    pub db_path: String,
    pub artifacts_dir: String,
    pub static_dir: Option<String>,
    pub auth_mode: AuthMode,
    pub cookie_secure: bool,
    pub registration_enabled: bool,
}

impl Default for ServerConfig {
    /// Local address, files in the working directory, authentication
    /// required, plain cookies, registrations open.
    fn default() -> (r: Self)
        ensures
            r.bind@ == "127.0.0.1:8787"@,
            r.db_path@ == "botracers.db"@,
            r.artifacts_dir@ == "botracers_artifacts"@,
            r.static_dir matches Some(d) && d@ == "web-dist"@,
            r.auth_mode == AuthMode::Required,
            !r.cookie_secure,
            r.registration_enabled,
    {
        Self {
            bind: String::from_str("127.0.0.1:8787"),
            db_path: String::from_str("botracers.db"),
            artifacts_dir: String::from_str("botracers_artifacts"),
            static_dir: Some(String::from_str("web-dist")),
            auth_mode: AuthMode::Required,
            cookie_secure: false,
            registration_enabled: true,
        }
    }
}

/// Whether `next` is a path on this site: it starts with `/` but not `//`.
pub open spec fn is_local_path(next: Seq<char>) -> bool {
    next.len() >= 1 && next[0] == '/' && !(next.len() >= 2 && next[1] == '/')
}

/// `next` when it is a path on this site, otherwise the site root.
pub open spec fn sanitized(next: Seq<char>) -> Seq<char> {
    if is_local_path(next) {
        next
    } else {
        "/"@
    }
}

/// The redirect target to use for `next`: `next` itself when it is a path
/// on this site, otherwise the site root.
pub fn sanitize_next(next: &str) -> (r: &str)
    ensures
        r@ == sanitized(next@),
{
    let n = next.unicode_len();
    if n >= 1 && next.get_char(0) == '/' && !(n >= 2 && next.get_char(1) == '/') {
        next
    } else {
        "/"
    }
}

/// How one character appears in HTML text.
pub open spec fn escape_char(c: char) -> Seq<char> {
    if c == '&' {
        seq!['&', 'a', 'm', 'p', ';']
    } else if c == '<' {
        seq!['&', 'l', 't', ';']
    } else if c == '>' {
        seq!['&', 'g', 't', ';']
    } else if c == '"' {
        seq!['&', 'q', 'u', 'o', 't', ';']
    } else if c == '\'' {
        seq!['&', '#', '3', '9', ';']
    } else {
        seq![c]
    }
}

/// `s` escaped for HTML text, character by character.
pub open spec fn escaped(s: Seq<char>) -> Seq<char>
    decreases s.len(),
{
    if s.len() == 0 {
        Seq::empty()
    } else {
        escaped(s.drop_last()) + escape_char(s.last())
    }
}

/// `value` with `&`, `<`, `>`, `"` and `'` replaced by their entities.
pub fn escape_html(value: &str) -> (r: String)
    ensures
        r@ == escaped(value@),
{
    let n = value.unicode_len();
    let mut out = String::new();
    let mut i: usize = 0;
    while i < n
        invariant
            i <= n,
            n == value@.len(),
            out@ == escaped(value@.subrange(0, i as int)),
        decreases n - i,
    {
        let c = value.get_char(i);
        let piece: &str = if c == '&' {
            "&amp;"
        } else if c == '<' {
            "&lt;"
        } else if c == '>' {
            "&gt;"
        } else if c == '"' {
            "&quot;"
        } else if c == '\'' {
            "&#39;"
        } else {
            value.substring_char(i, i + 1)
        };
        proof {
            reveal_strlit("&amp;");
            reveal_strlit("&lt;");
            reveal_strlit("&gt;");
            reveal_strlit("&quot;");
            reveal_strlit("&#39;");
            assert(piece@ =~= escape_char(c));
            assert(value@.subrange(0, i + 1).drop_last() =~= value@.subrange(0, i as int));
        }
        out.append(piece);
        i = i + 1;
    }
    assert(value@.subrange(0, n as int) =~= value@);
    out
}

/// Whether byte `b` is left as it is by percent-encoding: an ASCII letter
/// or digit, `-`, `_`, `.` or `~`.
pub open spec fn is_unreserved(b: u8) -> bool {
    (0x30 <= b <= 0x39) || (0x41 <= b <= 0x5a) || (0x61 <= b <= 0x7a) || b == 0x2d || b == 0x5f || b == 0x2e
        || b == 0x7e
}

/// Upper-case hexadecimal digit for `d < 16`.
pub open spec fn hex_digit(d: u8) -> char {
    if d < 10 {
        (0x30 + d) as char
    } else {
        (0x41 - 10 + d) as char
    }
}

/// How percent-encoding writes one byte.
pub open spec fn percent_byte(b: u8) -> Seq<char> {
    if is_unreserved(b) {
        seq![b as char]
    } else {
        seq!['%', hex_digit(b / 16), hex_digit(b % 16)]
    }
}

/// Percent-encoding of `bytes`, byte by byte.
pub open spec fn percent_encoded(bytes: Seq<u8>) -> Seq<char>
    decreases bytes.len(),
{
    if bytes.len() == 0 {
        Seq::empty()
    } else {
        percent_encoded(bytes.drop_last()) + percent_byte(bytes.last())
    }
}

/// Percent-encodes the UTF-8 bytes of `data` with `urlencoding::encode`.
/// Trusted: the crate's documentation and source give every byte except
/// ASCII letters, digits, `-`, `_`, `.` and `~` as `%` and two upper-case
/// hexadecimal digits, and leave those as they are.
#[verifier::external_body]
fn url_encode(data: &str) -> (r: String)
    ensures
        r@ == percent_encoded(data.spec_bytes()),
{
    urlencoding::encode(data).into_owned()
}

/// The login page address that returns to `next` and shows `error`.
pub fn next_login_with_error(next: &str, error: Option<&str>) -> (r: String)
    ensures
        r@ == "/login?next="@ + percent_encoded(next.spec_bytes()) + match error {
            Some(e) => "&error="@ + percent_encoded(e.spec_bytes()),
            None => Seq::empty(),
        },
{
    let mut url = String::from_str("/login?next=");
    let encoded = url_encode(next);
    url.append(encoded.as_str());
    match error {
        Some(e) => {
            url.append("&error=");
            let encoded_error = url_encode(e);
            url.append(encoded_error.as_str());
        },
        None => {
            assert(url@ =~= url@ + Seq::<char>::empty());
        },
    }
    url
}

/// Name of the session cookie.
pub const COOKIE_NAME: &'static str = "racehub_session";

/// The `Set-Cookie` value that stores session `token`; marked secure
/// when the hub is served over HTTPS.
pub open spec fn session_cookie_text(token: Seq<char>, secure: bool) -> Seq<char> {
    "racehub_session="@ + token + "; HttpOnly; Path=/; SameSite=Lax"@ + (if secure {
        "; Secure"@
    } else {
        Seq::empty()
    })
}

/// The `Set-Cookie` value that stores session `token`.
pub fn session_cookie(token: &str, secure: bool) -> (r: String)
    ensures
        r@ == session_cookie_text(token@, secure),
{
    let mut value = String::from_str("racehub_session=");
    value.append(token);
    value.append("; HttpOnly; Path=/; SameSite=Lax");
    if secure {
        value.append("; Secure");
    } else {
        assert(value@ =~= value@ + Seq::<char>::empty());
    }
    value
}

/// The `Set-Cookie` value that removes the session cookie.
pub fn expired_session_cookie(secure: bool) -> (r: String)
    ensures
        r@ == "racehub_session=; HttpOnly; Path=/; SameSite=Lax; Max-Age=0"@ + (if secure {
            "; Secure"@
        } else {
            Seq::empty()
        }),
{
    let mut value = String::from_str("racehub_session=; HttpOnly; Path=/; SameSite=Lax; Max-Age=0");
    if secure {
        value.append("; Secure");
    } else {
        assert(value@ =~= value@ + Seq::<char>::empty());
    }
    value
}

/// Unicode white space, as `char::is_whitespace` defines it.
pub open spec fn is_space(c: char) -> bool {
    let v = c as u32;
    (9 <= v <= 13) || v == 0x20 || v == 0x85 || v == 0xa0 || v == 0x1680 || (0x2000 <= v <= 0x200a) || v
        == 0x2028 || v == 0x2029 || v == 0x202f || v == 0x205f || v == 0x3000
}

fn space(c: char) -> (r: bool)
    ensures
        r == is_space(c),
{
    let v = c as u32;
    (9 <= v && v <= 13) || v == 0x20 || v == 0x85 || v == 0xa0 || v == 0x1680 || (0x2000 <= v && v <= 0x200a)
        || v == 0x2028 || v == 0x2029 || v == 0x202f || v == 0x205f || v == 0x3000
}

/// `s` without its leading white space.
pub open spec fn trim_start(s: Seq<char>) -> Seq<char>
    decreases s.len(),
{
    if s.len() > 0 && is_space(s[0]) {
        trim_start(s.drop_first())
    } else {
        s
    }
}

/// `s` without its trailing white space.
pub open spec fn trim_end(s: Seq<char>) -> Seq<char>
    decreases s.len(),
{
    if s.len() > 0 && is_space(s.last()) {
        trim_end(s.drop_last())
    } else {
        s
    }
}

/// `s` without leading and trailing white space.
pub open spec fn trimmed(s: Seq<char>) -> Seq<char> {
    trim_end(trim_start(s))
}

/// Index of the first `c` in `s`, or its length when there is none.
pub open spec fn index_of(s: Seq<char>, c: char) -> int
    decreases s.len(),
{
    if s.len() == 0 {
        0
    } else if s[0] == c {
        0
    } else {
        1 + index_of(s.drop_first(), c)
    }
}

/// `index_of` finds the first occurrence: `i` is it when no earlier
/// character is `c` and `s[i]` is `c` (or `i` is the end).
pub proof fn lemma_index_of(s: Seq<char>, c: char, i: int)
    requires
        0 <= i <= s.len(),
        forall|j: int| 0 <= j < i ==> s[j] != c,
        i == s.len() || s[i] == c,
    ensures
        index_of(s, c) == i,
    decreases i,
{
    if i > 0 {
        assert(s[0] != c);
        lemma_index_of(s.drop_first(), c, i - 1);
    }
}

/// Bounds of `cs[lo..hi]` without leading and trailing white space.
pub fn trim_bounds(cs: &Vec<char>, lo: usize, hi: usize) -> (r: (usize, usize))
    requires
        lo <= hi <= cs@.len(),
    ensures
        lo <= r.0 <= r.1 <= hi,
        cs@.subrange(r.0 as int, r.1 as int) == trimmed(cs@.subrange(lo as int, hi as int)),
{
    let mut a = lo;
    while a < hi && space(cs[a])
        invariant
            lo <= a <= hi <= cs@.len(),
            trim_start(cs@.subrange(lo as int, hi as int)) == trim_start(cs@.subrange(a as int, hi as int)),
        decreases hi - a,
    {
        assert(cs@.subrange(a as int, hi as int).drop_first() =~= cs@.subrange(a + 1, hi as int));
        a = a + 1;
    }
    let mut b = hi;
    while b > a && space(cs[b - 1])
        invariant
            lo <= a <= b <= hi <= cs@.len(),
            trim_end(cs@.subrange(a as int, hi as int)) == trim_end(cs@.subrange(a as int, b as int)),
        decreases b - a,
    {
        assert(cs@.subrange(a as int, b as int).drop_last() =~= cs@.subrange(a as int, b - 1));
        b = b - 1;
    }
    (a, b)
}

/// Index of the first `c` in `cs[lo..hi]`, or `hi`.
fn find_char(cs: &Vec<char>, lo: usize, hi: usize, c: char) -> (k: usize)
    requires
        lo <= hi <= cs@.len(),
    ensures
        lo <= k <= hi,
        k - lo == index_of(cs@.subrange(lo as int, hi as int), c),
{
    let mut k = lo;
    while k < hi && cs[k] != c
        invariant
            lo <= k <= hi <= cs@.len(),
            forall|j: int| lo <= j < k ==> cs@[j] != c,
        decreases hi - k,
    {
        k = k + 1;
    }
    proof {
        lemma_index_of(cs@.subrange(lo as int, hi as int), c, k - lo);
    }
    k
}

/// Whether `cs[lo..hi]` holds exactly the characters of `t`.
fn range_is(cs: &Vec<char>, lo: usize, hi: usize, t: &Vec<char>) -> (r: bool)
    requires
        lo <= hi <= cs@.len(),
    ensures
        r == (cs@.subrange(lo as int, hi as int) == t@),
{
    if hi - lo != t.len() {
        return false;
    }
    let mut i: usize = 0;
    while i < t.len()
        invariant
            hi - lo == t@.len(),
            lo <= hi <= cs@.len(),
            i <= t@.len(),
            forall|j: int| 0 <= j < i ==> cs@[lo + j] == t@[j],
        decreases t@.len() - i,
    {
        if cs[lo + i] != t[i] {
            return false;
        }
        i = i + 1;
    }
    assert(cs@.subrange(lo as int, hi as int) =~= t@);
    true
}

/// The token of an `Authorization` header value: what follows `Bearer `,
/// without surrounding white space, unless that is empty.
pub open spec fn bearer_of(v: Seq<char>) -> Option<Seq<char>> {
    let p = "Bearer "@;
    if v.len() >= p.len() && v.subrange(0, p.len() as int) == p {
        let t = trimmed(v.subrange(p.len() as int, v.len() as int));
        if t.len() == 0 {
            None
        } else {
            Some(t)
        }
    } else {
        None
    }
}

/// The session token that an `Authorization` header value carries, if any.
pub fn bearer_token(value: &str) -> (r: Option<String>)
    ensures
        match r {
            Some(t) => bearer_of(value@) == Some(t@),
            None => bearer_of(value@) is None,
        },
{
    let cs = chars_of(value);
    let prefix = chars_of("Bearer ");
    let n = cs.len();
    let p = prefix.len();
    if n < p || !range_is(&cs, 0, p, &prefix) {
        return None;
    }
    let (a, b) = trim_bounds(&cs, p, n);
    if a == b {
        return None;
    }
    Some(String::from_str(value.substring_char(a, b)))
}

/// The session token in a `Cookie` header value: its `;`-separated pairs
/// are read in order, each trimmed and split at its first `=` into a
/// trimmed name and value; the first pair named `racehub_session` with a
/// nonempty value gives the token. A pair without `=` ends the search with
/// no token.
pub open spec fn cookie_token_of(s: Seq<char>) -> Option<Seq<char>>
    decreases s.len(),
{
    let k = index_of(s, ';');
    let pair = trimmed(s.subrange(0, k));
    let e = index_of(pair, '=');
    if e >= pair.len() {
        None
    } else {
        let key = trimmed(pair.subrange(0, e));
        let value = trimmed(pair.subrange(e + 1, pair.len() as int));
        if key == "racehub_session"@ && value.len() > 0 {
            Some(value)
        } else if k >= s.len() {
            None
        } else {
            proof {
                lemma_index_of_bounds(s, ';');
            }
            cookie_token_of(s.subrange(k + 1, s.len() as int))
        }
    }
}

/// The index of a character lies within the sequence.
pub proof fn lemma_index_of_bounds(s: Seq<char>, c: char)
    ensures
        0 <= index_of(s, c) <= s.len(),
    decreases s.len(),
{
    if s.len() > 0 && s[0] != c {
        lemma_index_of_bounds(s.drop_first(), c);
    }
}

/// The session token that a `Cookie` header value carries, if any.
pub fn session_cookie_token(cookie_header: &str) -> (r: Option<String>)
    ensures
        match r {
            Some(t) => cookie_token_of(cookie_header@) == Some(t@),
            None => cookie_token_of(cookie_header@) is None,
        },
{
    let cs = chars_of(cookie_header);
    let name = chars_of(COOKIE_NAME);
    proof {
        reveal_strlit("racehub_session");
    }
    let n = cs.len();
    let mut p: usize = 0;
    assert(cs@.subrange(0, n as int) =~= cs@);
    while p <= n
        invariant
            p <= n,
            n == cs@.len(),
            cs@ == cookie_header@,
            name@ == "racehub_session"@,
            cookie_token_of(cs@) == cookie_token_of(cs@.subrange(p as int, n as int)),
        decreases n + 1 - p,
    {
        let ghost rest = cs@.subrange(p as int, n as int);
        let k = find_char(&cs, p, n, ';');
        let (a, b) = trim_bounds(&cs, p, k);
        proof {
            assert(rest.subrange(0, k - p) =~= cs@.subrange(p as int, k as int));
        }
        let e = find_char(&cs, a, b, '=');
        proof {
            lemma_index_of_bounds(cs@.subrange(a as int, b as int), '=');
        }
        if e == b {
            return None;
        }
        let (ka, kb) = trim_bounds(&cs, a, e);
        let (va, vb) = trim_bounds(&cs, e + 1, b);
        proof {
            let pair = cs@.subrange(a as int, b as int);
            assert(pair.subrange(0, e - a) =~= cs@.subrange(a as int, e as int));
            assert(pair.subrange(e - a + 1, pair.len() as int) =~= cs@.subrange(e + 1, b as int));
        }
        if range_is(&cs, ka, kb, &name) && va < vb {
            return Some(String::from_str(cookie_header.substring_char(va, vb)));
        }
        if k == n {
            return None;
        }
        proof {
            assert(rest.subrange(k - p + 1, rest.len() as int) =~= cs@.subrange(k + 1, n as int));
        }
        p = k + 1;
    }
    None
}

/// The HTTP status class of a refused request.
#[derive(Debug, Clone, Copy, PartialEq, Eq, Structural)]
pub enum ApiStatus {
    BadRequest,
    Unauthorized,
    Forbidden,
    NotFound,
    Internal,
}

/// A refused request: its status and the message sent back.
#[derive(Debug, Clone)]
pub struct ApiError {
    pub status: ApiStatus,
    pub message: String,
}

impl ApiError {
    /// An error with `status` and `message`.
    pub fn new(status: ApiStatus, message: &str) -> (r: Self)
        ensures
            r.status == status,
            r.message@ == message@,
    {
        ApiError { status, message: String::from_str(message) }
    }
}

/// What the hub tells clients about itself.
pub fn capabilities(mode: AuthMode, registration_enabled: bool) -> (r: crate::protocol::ServerCapabilities)
    ensures
        r.auth_required == (mode == AuthMode::Required),
        r.mode@ == mode_name(mode),
        r.registration_enabled == registration_enabled,
{
    crate::protocol::ServerCapabilities {
        auth_required: mode.auth_required(),
        mode: String::from_str(mode.as_str()),
        registration_enabled,
    }
}

/// Whether new accounts can be made: authentication is on and
/// registrations are open.
pub fn registration_open(mode: AuthMode, registration_enabled: bool) -> (r: bool)
    ensures
        r == (mode == AuthMode::Required && registration_enabled),
{
    mode.auth_required() && registration_enabled
}

/// The session token of a request with these header values: the bearer
/// token if there is one, else the session cookie's.
pub open spec fn token_of_request(authorization: Option<&str>, cookie: Option<&str>) -> Option<Seq<char>> {
    let from_bearer = match authorization {
        Some(a) => bearer_of(a@),
        None => None,
    };
    let from_cookie = match cookie {
        Some(c) => cookie_token_of(c@),
        None => None,
    };
    match from_bearer {
        Some(t) => Some(t),
        None => from_cookie,
    }
}

/// The session token of a request: the `Authorization` bearer token if it
/// has one, else the session cookie's.
pub fn request_token(authorization: Option<&str>, cookie: Option<&str>) -> (r: Option<String>)
    ensures
        match r {
            Some(t) => token_of_request(authorization, cookie) == Some(t@),
            None => token_of_request(authorization, cookie) is None,
        },
{
    if let Some(a) = authorization {
        if let Some(t) = bearer_token(a) {
            return Some(t);
        }
    }
    match cookie {
        Some(c) => session_cookie_token(c),
        None => None,
    }
}

/// Whether `user` may download a program owned by `owner`: always when
/// authentication is off; otherwise when the user owns it or it is public.
pub fn can_read_artifact(mode: AuthMode, owner: i64, user: i64, is_public: bool) -> (r: bool)
    ensures
        r == !(mode == AuthMode::Required && owner != user && !is_public),
{
    !(mode.auth_required() && owner != user && !is_public)
}

/// Whether `user` may delete a program owned by `owner`, or change its
/// visibility: always when authentication is off; otherwise only its owner.
pub fn can_change_artifact(mode: AuthMode, owner: i64, user: i64) -> (r: bool)
    ensures
        r == !(mode == AuthMode::Required && owner != user),
{
    !(mode.auth_required() && owner != user)
}

/// Checks the name and password of a new account: the name must not be
/// empty and the password must have at least 8 bytes of UTF-8.
pub fn check_new_user(username: &str, password: &str) -> (r: Result<(), ApiError>)
    ensures
        match r {
            Ok(()) => username@.len() > 0 && password.len() >= 8,
            Err(e) => e.status == ApiStatus::BadRequest && if username@.len() == 0 {
                e.message@ == "username must not be empty"@
            } else {
                password.len() < 8 && e.message@ == "password must be at least 8 chars"@
            },
        },
{
    if username.is_empty() {
        return Err(ApiError::new(ApiStatus::BadRequest, "username must not be empty"));
    }
    if password.len() < 8 {
        return Err(ApiError::new(ApiStatus::BadRequest, "password must be at least 8 chars"));
    }
    Ok(())
}

/// Checks the name and target of an upload: neither may be blank.
pub fn check_upload(name: &str, target: &str) -> (r: Result<(), ApiError>)
    ensures
        match r {
            Ok(()) => trimmed(name@).len() > 0 && trimmed(target@).len() > 0,
            Err(e) => e.status == ApiStatus::BadRequest && if trimmed(name@).len() == 0 {
                e.message@ == "artifact name must not be empty"@
            } else {
                trimmed(target@).len() == 0 && e.message@ == "artifact target must not be empty"@
            },
        },
{
    let name_cs = chars_of(name);
    let (a, b) = trim_bounds(&name_cs, 0, name_cs.len());
    assert(name_cs@.subrange(0, name_cs@.len() as int) =~= name@);
    if a == b {
        return Err(ApiError::new(ApiStatus::BadRequest, "artifact name must not be empty"));
    }
    let target_cs = chars_of(target);
    let (c, d) = trim_bounds(&target_cs, 0, target_cs.len());
    assert(target_cs@.subrange(0, target_cs@.len() as int) =~= target@);
    if c == d {
        return Err(ApiError::new(ApiStatus::BadRequest, "artifact target must not be empty"));
    }
    Ok(())
}

/// The message the login page shows for the `error` query parameter.
pub fn login_error_message(error: Option<&str>) -> (r: Option<&'static str>)
    ensures
        match error {
            Some(e) => if e@ == "registration_disabled"@ {
                r matches Some(m) && m@ == "Registration is disabled"@
            } else {
                r is None
            },
            None => r is None,
        },
{
    match error {
        Some(e) => if same_text(e, "registration_disabled") {
            Some("Registration is disabled")
        } else {
            None
        },
        None => None,
    }
}

/// Text of the login page: start of the page, up to where an error goes.
pub const LOGIN_HEAD: &'static str = "<!doctype html><html lang=\"en\"><head><meta charset=\"utf-8\" /><meta name=\"viewport\" content=\"width=device-width, initial-scale=1\" /><title>RaceHub Login</title><style>body { margin:0; min-height:100vh; display:grid; place-items:center; font-family:system-ui,sans-serif; background:#0f1217; color:#f5f7fb; }.card { width:min(420px, calc(100vw - 2rem)); background:#171c24; border:1px solid #2a3240; border-radius:12px; padding:1.25rem; box-sizing:border-box; }h1 { margin:0 0 1rem 0; font-size:1.25rem; }label { display:block; margin:0 0 0.25rem 0; font-size:0.9rem; color:#c7d0dd; }input { width:100%; box-sizing:border-box; border:1px solid #3a4455; border-radius:8px; padding:0.6rem 0.75rem; margin:0 0 0.75rem 0; background:#0f141c; color:#f5f7fb; }button { width:100%; border:0; border-radius:8px; padding:0.65rem 0.75rem; font-weight:600; background:#6ad490; color:#131417; cursor:pointer; }.error { margin:0 0 0.75rem 0; color:#ff8d8d; font-size:0.9rem; }.hint { margin:0.75rem 0 0; color:#a9b5c5; font-size:0.8rem; }a { color:#9bd0ff; }</style></head><body><main class=\"card\"><h1>Sign in to RaceHub</h1>";

/// Text of the login page: start of the form, up to the `next` value.
pub const LOGIN_FORM: &'static str = "<form method=\"post\" action=\"/login\"><input type=\"hidden\" name=\"next\" value=\"";

/// Text of the login page: between the `next` value and the username.
pub const LOGIN_USERNAME: &'static str = "\" /><label for=\"username\">Username</label><input id=\"username\" name=\"username\" autocomplete=\"username\" required value=\"";

/// Text of the login page: between the username and what follows the form.
pub const LOGIN_PASSWORD: &'static str = "\" /><label for=\"password\">Password</label><input id=\"password\" name=\"password\" type=\"password\" autocomplete=\"current-password\" required /><button type=\"submit\">Log in</button></form>";

/// Text of the login page: end of the page.
pub const LOGIN_TAIL: &'static str = "<p class=\"hint\">You will be redirected back to the game after login.</p></main></body></html>";

/// Text of the registration page: start of the page, up to where an error goes.
pub const REGISTER_HEAD: &'static str = "<!doctype html><html lang=\"en\"><head><meta charset=\"utf-8\" /><meta name=\"viewport\" content=\"width=device-width, initial-scale=1\" /><title>RaceHub Register</title><style>body { margin:0; min-height:100vh; display:grid; place-items:center; font-family:system-ui,sans-serif; background:#0f1217; color:#f5f7fb; }.card { width:min(420px, calc(100vw - 2rem)); background:#171c24; border:1px solid #2a3240; border-radius:12px; padding:1.25rem; box-sizing:border-box; }h1 { margin:0 0 1rem 0; font-size:1.25rem; }label { display:block; margin:0 0 0.25rem 0; font-size:0.9rem; color:#c7d0dd; }input { width:100%; box-sizing:border-box; border:1px solid #3a4455; border-radius:8px; padding:0.6rem 0.75rem; margin:0 0 0.75rem 0; background:#0f141c; color:#f5f7fb; }button { width:100%; border:0; border-radius:8px; padding:0.65rem 0.75rem; font-weight:600; background:#6ad490; color:#131417; cursor:pointer; }.error { margin:0 0 0.75rem 0; color:#ff8d8d; font-size:0.9rem; }.hint { margin:0.75rem 0 0; color:#a9b5c5; font-size:0.8rem; }a { color:#9bd0ff; }</style></head><body><main class=\"card\"><h1>Create RaceHub account</h1>";

/// Text of the registration page: start of the form, up to the `next` value.
pub const REGISTER_FORM: &'static str = "<form method=\"post\" action=\"/register\"><input type=\"hidden\" name=\"next\" value=\"";

/// Text of the registration page: between the `next` value and the username.
pub const REGISTER_USERNAME: &'static str = "\" /><label for=\"username\">Username</label><input id=\"username\" name=\"username\" autocomplete=\"username\" required value=\"";

/// Text of the registration page: between the username and what follows the form.
pub const REGISTER_PASSWORD: &'static str = "\" /><label for=\"password\">Password</label><input id=\"password\" name=\"password\" type=\"password\" autocomplete=\"new-password\" required /><button type=\"submit\">Create account</button></form><p class=\"hint\">Already have an account? <a href=\"/login?next=";

/// Text of the registration page: end of the page.
pub const REGISTER_TAIL: &'static str = "\">Sign in</a></p></main></body></html>";

/// The text of an optional string slice.
pub open spec fn opt_str(s: Option<&str>) -> Option<Seq<char>> {
    match s {
        Some(t) => Some(t@),
        None => None,
    }
}

/// The error paragraph of a page: empty without an error.
pub open spec fn error_html(error: Option<Seq<char>>) -> Seq<char> {
    match error {
        Some(m) => "<p class=\"error\">"@ + escaped(m) + "</p>"@,
        None => Seq::empty(),
    }
}

/// The login page for target `next`, with `username` filled in, `error`
/// shown, and a registration link when `registration_enabled`.
pub open spec fn login_page_text(next: Seq<char>, username: Seq<char>, error: Option<Seq<char>>, registration_enabled: bool) -> Seq<char> {
    LOGIN_HEAD@ + error_html(error) + LOGIN_FORM@ + escaped(next) + LOGIN_USERNAME@ + escaped(username)
        + LOGIN_PASSWORD@ + (if registration_enabled {
        "<p class=\"hint\"><a href=\"/register?next="@ + percent_encoded(vstd::utf8::encode_utf8(next))
            + "\">Create account</a></p>"@
    } else {
        Seq::empty()
    }) + LOGIN_TAIL@
}

/// The registration page for target `next`, with `username` filled in and
/// `error` shown.
pub open spec fn register_page_text(next: Seq<char>, username: Seq<char>, error: Option<Seq<char>>) -> Seq<char> {
    REGISTER_HEAD@ + error_html(error) + REGISTER_FORM@ + escaped(next) + REGISTER_USERNAME@ + escaped(username)
        + REGISTER_PASSWORD@ + percent_encoded(vstd::utf8::encode_utf8(next)) + REGISTER_TAIL@
}

/// `s`, or nothing.
pub open spec fn text_or_empty(s: Option<&str>) -> Seq<char> {
    match s {
        Some(t) => t@,
        None => Seq::empty(),
    }
}

fn push_error_html(page: &mut String, error: Option<&str>)
    ensures
        final(page)@ == old(page)@ + error_html(opt_str(error)),
{
    match error {
        Some(message) => {
            page.append("<p class=\"error\">");
            let escaped_message = escape_html(message);
            page.append(escaped_message.as_str());
            page.append("</p>");
        },
        None => {
            assert(page@ =~= page@ + Seq::<char>::empty());
        },
    }
}

fn push_escaped_or_empty(page: &mut String, value: Option<&str>)
    ensures
        final(page)@ == old(page)@ + escaped(text_or_empty(value)),
{
    match value {
        Some(v) => {
            let e = escape_html(v);
            page.append(e.as_str());
        },
        None => {
            assert(escaped(Seq::<char>::empty()) =~= Seq::<char>::empty());
            assert(page@ =~= page@ + Seq::<char>::empty());
        },
    }
}

/// The login form: it posts back to `/login` with `next`, shows `error`
/// and keeps `username`, all escaped, and links to registration when it is
/// open.
pub fn render_login_page(next: &str, username: Option<&str>, error: Option<&str>, registration_enabled: bool) -> (r:
    String)
    ensures
        r@ == login_page_text(next@, text_or_empty(username), opt_str(error), registration_enabled),
{
    let mut page = String::from_str(LOGIN_HEAD);
    push_error_html(&mut page, error);
    page.append(LOGIN_FORM);
    let escaped_next = escape_html(next);
    page.append(escaped_next.as_str());
    page.append(LOGIN_USERNAME);
    push_escaped_or_empty(&mut page, username);
    page.append(LOGIN_PASSWORD);
    if registration_enabled {
        page.append("<p class=\"hint\"><a href=\"/register?next=");
        let encoded = url_encode(next);
        page.append(encoded.as_str());
        page.append("\">Create account</a></p>");
    } else {
        assert(page@ =~= page@ + Seq::<char>::empty());
    }
    page.append(LOGIN_TAIL);
    page
}

/// The registration form: it posts back to `/register` with `next`, shows
/// `error` and keeps `username`, all escaped, and links back to the login
/// page.
pub fn render_register_page(next: &str, username: Option<&str>, error: Option<&str>) -> (r: String)
    ensures
        r@ == register_page_text(next@, text_or_empty(username), opt_str(error)),
{
    let mut page = String::from_str(REGISTER_HEAD);
    push_error_html(&mut page, error);
    page.append(REGISTER_FORM);
    let escaped_next = escape_html(next);
    page.append(escaped_next.as_str());
    page.append(REGISTER_USERNAME);
    push_escaped_or_empty(&mut page, username);
    page.append(REGISTER_PASSWORD);
    let encoded = url_encode(next);
    page.append(encoded.as_str());
    page.append(REGISTER_TAIL);
    page
}

/// Id of the single user when authentication is off.
pub const LOCAL_USER_ID: i64 = 1;

/// Whether the API may register an account: not when authentication is
/// off (a bad request) or registrations are closed (forbidden).
pub fn register_gate(mode: AuthMode, registration_enabled: bool) -> (r: Result<(), ApiError>)
    ensures
        match r {
            Ok(()) => mode == AuthMode::Required && registration_enabled,
            Err(e) => if mode == AuthMode::Disabled {
                e.status == ApiStatus::BadRequest && e.message@ == "auth is disabled in standalone mode"@
            } else {
                !registration_enabled && e.status == ApiStatus::Forbidden && e.message@ == "registration is disabled"@
            },
        },
{
    if !mode.auth_required() {
        return Err(ApiError::new(ApiStatus::BadRequest, "auth is disabled in standalone mode"));
    }
    if !registration_enabled {
        return Err(ApiError::new(ApiStatus::Forbidden, "registration is disabled"));
    }
    Ok(())
}

/// Whether the API may open a session: not when authentication is off.
pub fn login_gate(mode: AuthMode) -> (r: Result<(), ApiError>)
    ensures
        match r {
            Ok(()) => mode == AuthMode::Required,
            Err(e) => mode == AuthMode::Disabled && e.status == ApiStatus::BadRequest && e.message@
                == "auth is disabled in standalone mode"@,
        },
{
    if !mode.auth_required() {
        return Err(ApiError::new(ApiStatus::BadRequest, "auth is disabled in standalone mode"));
    }
    Ok(())
}

/// Who a request comes from before its session is looked up: the local
/// user when authentication is off; otherwise the request's session token
/// to look up, or a refusal when it carries none.
pub fn request_identity(mode: AuthMode, authorization: Option<&str>, cookie: Option<&str>) -> (r: Result<
    Result<crate::protocol::UserInfo, String>,
    ApiError,
>)
    ensures
        mode == AuthMode::Disabled ==> (r matches Ok(Ok(u)) && u.id == LOCAL_USER_ID && u.username@ == "local"@),
        mode == AuthMode::Required ==> match r {
            Ok(Ok(_)) => false,
            Ok(Err(token)) => token_of_request(authorization, cookie) == Some(token@),
            Err(e) => token_of_request(authorization, cookie) is None && e.status == ApiStatus::Unauthorized
                && e.message@ == "missing Authorization bearer token or session cookie"@,
        },
{
    if !mode.auth_required() {
        return Ok(Ok(crate::protocol::UserInfo { id: LOCAL_USER_ID, username: String::from_str("local") }));
    }
    match request_token(authorization, cookie) {
        Some(token) => Ok(Err(token)),
        None => Err(
            ApiError::new(ApiStatus::Unauthorized, "missing Authorization bearer token or session cookie"),
        ),
    }
}

/// The redirect target of a request's `next` parameter, the site root
/// when there is none.
pub open spec fn target_of(next: Option<&str>) -> Seq<char> {
    sanitized(
        match next {
            Some(n) => n@,
            None => "/"@,
        },
    )
}

/// What the registration page address answers: the form for the sanitized
/// target when registrations are open, otherwise (`Err`) the address of the
/// login page that says they are closed.
pub fn register_page_or_redirect(mode: AuthMode, registration_enabled: bool, next: Option<&str>) -> (r: Result<
    String,
    String,
>)
    ensures
        match r {
            Ok(page) => mode == AuthMode::Required && registration_enabled && page@ == register_page_text(
                target_of(next),
                Seq::empty(),
                None,
            ),
            Err(location) => !(mode == AuthMode::Required && registration_enabled) && location@ == "/login?next="@
                + percent_encoded(vstd::utf8::encode_utf8(target_of(next))) + "&error="@ + percent_encoded(
                vstd::utf8::encode_utf8("registration_disabled"@),
            ),
        },
{
    let target = sanitize_next(
        match next {
            Some(n) => n,
            None => "/",
        },
    );
    if !registration_open(mode, registration_enabled) {
        return Err(next_login_with_error(target, Some("registration_disabled")));
    }
    let page = render_register_page(target, None, None);
    assert(escaped(Seq::<char>::empty()) =~= Seq::<char>::empty());
    Ok(page)
}

/// What the login page address answers: the form for the sanitized target,
/// with the message for the `error` parameter.
pub fn login_page_for(next: Option<&str>, error: Option<&str>, registration_enabled: bool) -> (r: String)
    ensures
        r@ == login_page_text(
            target_of(next),
            Seq::empty(),
            match error {
                Some(e) => if e@ == "registration_disabled"@ {
                    Some("Registration is disabled"@)
                } else {
                    None
                },
                None => None,
            },
            registration_enabled,
        ),
{
    let target = sanitize_next(
        match next {
            Some(n) => n,
            None => "/",
        },
    );
    let message = login_error_message(error);
    render_login_page(target, None, message, registration_enabled)
}


/// `value` without leading and trailing white space, as `str::trim` gives
/// it; user names, program names and targets are stored this way.
pub fn trim_text(value: &str) -> (r: String)
    ensures
        r@ == trimmed(value@),
{
    let cs = chars_of(value);
    let (a, b) = trim_bounds(&cs, 0, cs.len());
    assert(cs@.subrange(0, cs@.len() as int) =~= value@);
    String::from_str(value.substring_char(a, b))
}

/// A found token as a list of one, none as the empty list.
pub open spec fn listed(t: Option<Seq<char>>) -> Seq<Seq<char>> {
    match t {
        Some(t) => seq![t],
        None => Seq::empty(),
    }
}

/// The session tokens that a logout request carries: its bearer token,
/// then its session cookie's, each where it has one.
pub open spec fn logout_tokens_of(authorization: Option<&str>, cookie: Option<&str>) -> Seq<Seq<char>> {
    listed(
        match authorization {
            Some(a) => bearer_of(a@),
            None => None,
        },
    ) + listed(
        match cookie {
            Some(c) => cookie_token_of(c@),
            None => None,
        },
    )
}

/// The sessions that a logout ends: none when authentication is off; else
/// every session token that the request carries, and a refusal when it
/// carries none.
pub fn logout_tokens(mode: AuthMode, authorization: Option<&str>, cookie: Option<&str>) -> (r: Result<
    Vec<String>,
    ApiError,
>)
    ensures
        mode == AuthMode::Disabled ==> (r matches Ok(v) && v@.len() == 0),
        mode == AuthMode::Required ==> match r {
            Ok(v) => v@.map_values(|t: String| t@) == logout_tokens_of(authorization, cookie) && v@.len() > 0,
            Err(e) => logout_tokens_of(authorization, cookie).len() == 0 && e.status == ApiStatus::Unauthorized
                && e.message@ == "missing auth token/session cookie"@,
        },
{
    let mut tokens: Vec<String> = Vec::new();
    if !mode.auth_required() {
        return Ok(tokens);
    }
    if let Some(a) = authorization {
        if let Some(t) = bearer_token(a) {
            tokens.push(t);
        }
    }
    let ghost first = tokens@.map_values(|t: String| t@);
    assert(first =~= listed(
        match authorization {
            Some(a) => bearer_of(a@),
            None => None,
        },
    ));
    if let Some(c) = cookie {
        if let Some(t) = session_cookie_token(c) {
            tokens.push(t);
        }
    }
    assert(tokens@.map_values(|t: String| t@) =~= logout_tokens_of(authorization, cookie));
    if tokens.len() == 0 {
        return Err(ApiError::new(ApiStatus::Unauthorized, "missing auth token/session cookie"));
    }
    Ok(tokens)
}

/// The status of the registration page when an account could not be made:
/// a server error stays one, anything else is the visitor's mistake.
pub open spec fn failure_status(status: ApiStatus) -> ApiStatus {
    if status == ApiStatus::Internal {
        ApiStatus::Internal
    } else {
        ApiStatus::BadRequest
    }
}

/// The status of the registration page when an account could not be made.
pub fn register_failure_status(status: ApiStatus) -> (r: ApiStatus)
    ensures
        r == failure_status(status),
{
    match status {
        ApiStatus::Internal => ApiStatus::Internal,
        _ => ApiStatus::BadRequest,
    }
}

/// The file, under the storage directory, that holds the program with id
/// `id`: `artifact_<id>.elf`.
pub fn artifact_file_name(id: i64) -> (r: String)
    ensures
        r@ == "artifact_"@ + signed_decimal(id as int) + ".elf"@,
{
    let mut name = String::from_str("artifact_");
    push_signed(&mut name, id);
    name.append(".elf");
    name
}

/// The query that lists programs, newest first: every program when
/// authentication is off, otherwise the user's own (`?1`) and the public
/// ones.
pub fn artifact_list_query(mode: AuthMode) -> (r: &'static str)
    ensures
        mode == AuthMode::Required ==> r@
            == "SELECT a.id, a.owner_user_id, u.username, a.name, a.note, a.target, a.is_public, a.created_at FROM artifacts a JOIN users u ON u.id = a.owner_user_id WHERE a.owner_user_id = ?1 OR a.is_public = 1 ORDER BY a.created_at DESC"@,
        mode == AuthMode::Disabled ==> r@
            == "SELECT a.id, a.owner_user_id, u.username, a.name, a.note, a.target, a.is_public, a.created_at FROM artifacts a JOIN users u ON u.id = a.owner_user_id ORDER BY a.created_at DESC"@,
{
    if mode.auth_required() {
        "SELECT a.id, a.owner_user_id, u.username, a.name, a.note, a.target, a.is_public, a.created_at FROM artifacts a JOIN users u ON u.id = a.owner_user_id WHERE a.owner_user_id = ?1 OR a.is_public = 1 ORDER BY a.created_at DESC"
    } else {
        "SELECT a.id, a.owner_user_id, u.username, a.name, a.note, a.target, a.is_public, a.created_at FROM artifacts a JOIN users u ON u.id = a.owner_user_id ORDER BY a.created_at DESC"
    }
}


impl ApiStatus {
    /// The HTTP status code of a refusal.
    pub open spec fn spec_code(self) -> u16 {
        match self {
            ApiStatus::BadRequest => 400,
            ApiStatus::Unauthorized => 401,
            ApiStatus::Forbidden => 403,
            ApiStatus::NotFound => 404,
            ApiStatus::Internal => 500,
        }
    }

    /// The HTTP status code of a refusal.
    pub fn code(self) -> (r: u16)
        ensures
            r == self.spec_code(),
    {
        match self {
            ApiStatus::BadRequest => 400,
            ApiStatus::Unauthorized => 401,
            ApiStatus::Forbidden => 403,
            ApiStatus::NotFound => 404,
            ApiStatus::Internal => 500,
        }
    }
}

/// What a request for a web page is answered with.
pub enum WebAnswer {
    /// `303 See Other` to `location`, storing the session `cookie` when
    /// there is one.
    Redirect { location: String, cookie: Option<String> },
    /// An HTML page with this HTTP status code.
    Page { status: u16, html: String },
    /// A refusal, answered as the API answers it.
    Refused(ApiError),
}

/// The message of the login form after rejected credentials.
pub const INVALID_CREDENTIALS: &'static str = "Invalid username or password";

/// How the login form is answered. With authentication off the browser is
/// just sent on to the target. Otherwise `session` is the token of the
/// session that the submitted credentials opened, if they were accepted:
/// then the session cookie is set and the browser sent to the target; if
/// not, the form comes back (401) with the trimmed name and an error.
pub fn web_login_answer(
    mode: AuthMode,
    next: Option<&str>,
    username: &str,
    session: Option<&str>,
    registration_enabled: bool,
    cookie_secure: bool,
) -> (r: WebAnswer)
    ensures
        match r {
            WebAnswer::Redirect { location, cookie } => location@ == target_of(next) && if mode
                == AuthMode::Disabled {
                cookie is None
            } else {
                match (session, cookie) {
                    (Some(t), Some(c)) => c@ == session_cookie_text(t@, cookie_secure),
                    _ => false,
                }
            },
            WebAnswer::Page { status, html } => mode == AuthMode::Required && session is None && status == 401
                && html@ == login_page_text(
                target_of(next),
                trimmed(username@),
                Some(INVALID_CREDENTIALS@),
                registration_enabled,
            ),
            WebAnswer::Refused(_) => false,
        },
        mode == AuthMode::Disabled ==> r is Redirect,
        mode == AuthMode::Required ==> (r is Redirect <==> session is Some),
{
    let target = sanitize_next(
        match next {
            Some(n) => n,
            None => "/",
        },
    );
    if !mode.auth_required() {
        return WebAnswer::Redirect { location: String::from_str(target), cookie: None };
    }
    match session {
        Some(token) => WebAnswer::Redirect {
            location: String::from_str(target),
            cookie: Some(session_cookie(token, cookie_secure)),
        },
        None => {
            let name = trim_text(username);
            WebAnswer::Page {
                status: 401,
                html: render_login_page(target, Some(name.as_str()), Some(INVALID_CREDENTIALS), registration_enabled),
            }
        },
    }
}

/// How the registration form is answered. When registrations are closed
/// the browser is sent to the login page, which says so, and `created` is
/// not looked at. Otherwise `created` is what making the account gave:
/// the refusal of the account (the form comes back with the trimmed name,
/// the message, and status 500 for a server error, 400 otherwise); or,
/// the account made, the outcome of opening its session (its token, which
/// is stored in the cookie as the browser is sent to the target, or a
/// refusal, answered as such).
pub fn web_register_answer(
    mode: AuthMode,
    registration_enabled: bool,
    next: Option<&str>,
    username: &str,
    created: Result<Result<String, ApiError>, ApiError>,
    cookie_secure: bool,
) -> (r: WebAnswer)
    ensures
        !(mode == AuthMode::Required && registration_enabled) ==> match r {
            WebAnswer::Redirect { location, cookie } => cookie is None && location@ == "/login?next="@
                + percent_encoded(vstd::utf8::encode_utf8(target_of(next))) + "&error="@ + percent_encoded(
                vstd::utf8::encode_utf8("registration_disabled"@),
            ),
            _ => false,
        },
        (mode == AuthMode::Required && registration_enabled) ==> match (created, r) {
            (Err(e), WebAnswer::Page { status, html }) => status == failure_status(e.status).spec_code()
                && html@ == register_page_text(target_of(next), trimmed(username@), Some(e.message@)),
            (Ok(Err(e)), WebAnswer::Refused(f)) => f == e,
            (Ok(Ok(token)), WebAnswer::Redirect { location, cookie }) => location@ == target_of(next) && match cookie {
                Some(c) => c@ == session_cookie_text(token@, cookie_secure),
                None => false,
            },
            _ => false,
        },
{
    let target = sanitize_next(
        match next {
            Some(n) => n,
            None => "/",
        },
    );
    if !registration_open(mode, registration_enabled) {
        return WebAnswer::Redirect {
            location: next_login_with_error(target, Some("registration_disabled")),
            cookie: None,
        };
    }
    match created {
        Err(e) => {
            let status = register_failure_status(e.status).code();
            let name = trim_text(username);
            WebAnswer::Page {
                status,
                html: render_register_page(target, Some(name.as_str()), Some(e.message.as_str())),
            }
        },
        Ok(Err(e)) => WebAnswer::Refused(e),
        Ok(Ok(token)) => WebAnswer::Redirect {
            location: String::from_str(target),
            cookie: Some(session_cookie(token.as_str(), cookie_secure)),
        },
    }
}

/// The login form that the game page address answers before the game is
/// served: when authentication is required and the request is not signed
/// in, the form for the requested path (`/index.html` when there is none),
/// sanitized; otherwise `None`, and the game is served.
pub fn game_entry_login_page(
    mode: AuthMode,
    signed_in: bool,
    path_and_query: Option<&str>,
    registration_enabled: bool,
) -> (r: Option<String>)
    ensures
        match r {
            Some(page) => mode == AuthMode::Required && !signed_in && page@ == login_page_text(
                sanitized(
                    match path_and_query {
                        Some(p) => p@,
                        None => "/index.html"@,
                    },
                ),
                Seq::empty(),
                None,
                registration_enabled,
            ),
            None => !(mode == AuthMode::Required && !signed_in),
        },
{
    if mode.auth_required() && !signed_in {
        let next = sanitize_next(
            match path_and_query {
                Some(p) => p,
                None => "/index.html",
            },
        );
        let page = render_login_page(next, None, None, registration_enabled);
        assert(text_or_empty(None) =~= Seq::<char>::empty());
        Some(page)
    } else {
        None
    }
}


/// The message of a request for a program that does not exist.
pub const ARTIFACT_NOT_FOUND: &'static str = "artifact not found";

/// The message of a request for another user's program.
pub const ARTIFACT_NOT_OWNED: &'static str = "artifact is not owned by current user";

/// Whether `r` is the refusal with `status` and `message`.
pub open spec fn is_refusal<T>(r: Result<T, ApiError>, status: ApiStatus, message: Seq<char>) -> bool {
    r matches Err(e) && e.status == status && e.message@ == message
}

/// How a download request of `user` is answered, from the program's row:
/// its owner, stored file name and public flag (`0` for private), or
/// `None` when there is no such program. Returns the stored file to send,
/// or the refusal: not found (404) without a row; not owned (401) when
/// authentication is required and the program is another user's private
/// one. The caller reads the file only on `Ok`; nothing is written.
pub fn download_answer(mode: AuthMode, row: Option<(i64, String, i64)>, user: i64) -> (r: Result<String, ApiError>)
    ensures
        match row {
            None => is_refusal(r, ApiStatus::NotFound, ARTIFACT_NOT_FOUND@),
            Some((owner, file, public)) => if mode == AuthMode::Required && owner != user && public == 0 {
                is_refusal(r, ApiStatus::Unauthorized, ARTIFACT_NOT_OWNED@)
            } else {
                r matches Ok(f) && f@ == file@
            },
        },
{
    match row {
        None => Err(ApiError::new(ApiStatus::NotFound, ARTIFACT_NOT_FOUND)),
        Some((owner, file, public)) => if can_read_artifact(mode, owner, user, public != 0) {
            Ok(file)
        } else {
            Err(ApiError::new(ApiStatus::Unauthorized, ARTIFACT_NOT_OWNED))
        },
    }
}

/// How a request of `user` to make a program public or private is
/// answered, from the program's owner (`None` when there is no such
/// program). Returns the public flag to store in the program's row (`1`
/// public, `0` private), after which the answer is `204 No Content`; or the
/// refusal: not found (404) without a row; not owned (401) when
/// authentication is required and the user is not the owner. The caller
/// updates the row only on `Ok`, so a refusal leaves the database as it was.
pub fn visibility_answer(mode: AuthMode, owner: Option<i64>, user: i64, is_public: bool) -> (r: Result<i64, ApiError>)
    ensures
        match owner {
            None => is_refusal(r, ApiStatus::NotFound, ARTIFACT_NOT_FOUND@),
            Some(o) => if mode == AuthMode::Required && o != user {
                is_refusal(r, ApiStatus::Unauthorized, ARTIFACT_NOT_OWNED@)
            } else {
                r == Ok::<i64, ApiError>(if is_public { 1 } else { 0 })
            },
        },
{
    match owner {
        None => Err(ApiError::new(ApiStatus::NotFound, ARTIFACT_NOT_FOUND)),
        Some(o) => if can_change_artifact(mode, o, user) {
            Ok(if is_public { 1 } else { 0 })
        } else {
            Err(ApiError::new(ApiStatus::Unauthorized, ARTIFACT_NOT_OWNED))
        },
    }
}

/// How a request of `user` to delete a program is answered, from the
/// program's row: its owner and stored file name, or `None` when there is
/// no such program. Returns the stored file to remove before the row is
/// deleted (`204 No Content`), or the refusal: not found (404) without a
/// row; not owned (401) when authentication is required and the user is
/// not the owner. The caller removes nothing on a refusal.
pub fn delete_answer(mode: AuthMode, row: Option<(i64, String)>, user: i64) -> (r: Result<String, ApiError>)
    ensures
        match row {
            None => is_refusal(r, ApiStatus::NotFound, ARTIFACT_NOT_FOUND@),
            Some((owner, file)) => if mode == AuthMode::Required && owner != user {
                is_refusal(r, ApiStatus::Unauthorized, ARTIFACT_NOT_OWNED@)
            } else {
                r matches Ok(f) && f@ == file@
            },
        },
{
    match row {
        None => Err(ApiError::new(ApiStatus::NotFound, ARTIFACT_NOT_FOUND)),
        Some((owner, file)) => if can_change_artifact(mode, owner, user) {
            Ok(file)
        } else {
            Err(ApiError::new(ApiStatus::Unauthorized, ARTIFACT_NOT_OWNED))
        },
    }
}


/// One listed program as the listing sends it to `user`, from a row of
/// the listing query: `owned_by_me` when the owner is the user, and
/// `is_public` when the stored flag is nonzero; the other fields as stored.
pub fn artifact_summary(
    user: i64,
    id: i64,
    owner_user_id: i64,
    owner_username: String,
    name: String,
    note: Option<String>,
    target: String,
    stored_public: i64,
    created_at: String,
) -> (r: crate::protocol::ArtifactSummary)
    ensures
        r.id == id,
        r.owner_user_id == owner_user_id,
        r.owner_username == owner_username,
        r.name == name,
        r.note == note,
        r.target == target,
        r.is_public == (stored_public != 0),
        r.owned_by_me == (owner_user_id == user),
        r.created_at == created_at,
{
    crate::protocol::ArtifactSummary {
        id,
        owner_user_id,
        owner_username,
        name,
        note,
        target,
        is_public: stored_public != 0,
        owned_by_me: owner_user_id == user,
        created_at,
    }
}

} // verus!
