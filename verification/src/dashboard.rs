//! Dashboard sessions and the decisions behind the dashboard's HTTP API:
//! session cookies, login and logout, the status commands, the install
//! script and the download names. Serving HTTP is left to the caller.
//! Times are milliseconds on the caller's monotonic clock.

use crate::config::{dashboard_token_accepted, ServerConfig};
use crate::random::{random_uuid, uuid_v4_text};
use crate::registry::{elapsed_secs, elapsed_secs_exec};
use crate::text::{
    chars_of, contains, contains_exec, decimal, eq_ignore_ascii_case, eq_ignore_ascii_case_exec,
    is_whitespace,
    is_ascii_alnum, is_ascii_alnum_char, push_decimal, slice_chars, split, split_exec,
    starts_with, starts_with_exec, string_from_chars, trim, trim_chars, views,
};
use dashmap::DashMap;
use vstd::prelude::*;
use vstd::string::*;

verus! {

// ─── Sessions ────────────────────────────────────────────────────

/// The creation times a session map holds, by session id.
pub uninterp spec fn session_times(m: DashMap<String, u64>) -> Map<Seq<char>, u64>;

/// The table of a store with no sessions.
pub open spec fn no_sessions() -> Map<Seq<char>, u64> {
    Map::empty()
}

/// `DashMap::new`: an empty map.
#[verifier::external_body]
fn sessions_new() -> (r: DashMap<String, u64>)
    ensures
        session_times(r) == no_sessions(),
{
    DashMap::new()
}

/// `DashMap::get`, copying the value: the creation time under the id, if any.
#[verifier::external_body]
fn sessions_get(m: &DashMap<String, u64>, key: &str) -> (r: Option<u64>)
    ensures
        r is Some <==> session_times(*m).dom().contains(key@),
        r matches Some(t) ==> t == session_times(*m)[key@],
{
    m.get(key).map(|e| *e.value())
}

/// `DashMap::insert`: the id now maps to the time; nothing else changes.
#[verifier::external_body]
fn sessions_insert(m: &mut DashMap<String, u64>, key: String, value: u64)
    ensures
        session_times(*final(m)) == session_times(*old(m)).insert(key@, value),
{
    m.insert(key, value);
}

/// `DashMap::remove`: the id no longer maps to anything; nothing else changes.
#[verifier::external_body]
fn sessions_remove(m: &mut DashMap<String, u64>, key: &str)
    ensures
        session_times(*final(m)) == session_times(*old(m)).remove(key@),
{
    m.remove(key);
}

/// Checking a session id: a known session younger than the time-to-live
/// (in whole seconds) is valid; a known older one is invalid and forgotten;
/// an unknown one is invalid.
pub open spec fn session_check(
    sessions: Map<Seq<char>, u64>,
    ttl_secs: u64,
    id: Seq<char>,
    now_ms: u64,
) -> (bool, Map<Seq<char>, u64>) {
    if sessions.dom().contains(id) {
        if elapsed_secs(sessions[id], now_ms) < ttl_secs {
            (true, sessions)
        } else {
            (false, sessions.remove(id))
        }
    } else {
        (false, sessions)
    }
}

/// The dashboard's login sessions: each id with the time it was created.
pub struct SessionStore {
    sessions: DashMap<String, u64>,
    ttl_secs: u64,
}

impl View for SessionStore {
    type V = (u64, Map<Seq<char>, u64>);

    closed spec fn view(&self) -> (u64, Map<Seq<char>, u64>) {
        (self.ttl_secs, session_times(self.sessions))
    }
}

impl SessionStore {
    pub fn new(ttl_secs: u64) -> (r: Self)
        ensures
            r@ == (ttl_secs, no_sessions()),
    {
        SessionStore { sessions: sessions_new(), ttl_secs }
    }

    /// The time-to-live of a session, in seconds.
    pub fn ttl_secs(&self) -> (r: u64)
        ensures
            r == self@.0,
    {
        self.ttl_secs
    }

    /// Start a session under the given id at `now_ms` (an existing session
    /// under that id is replaced).
    pub fn start_session(&mut self, id: String, now_ms: u64)
        ensures
            final(self)@ == (old(self)@.0, old(self)@.1.insert(id@, now_ms)),
    {
        sessions_insert(&mut self.sessions, id, now_ms);
    }

    /// Start a session at `now_ms` under a fresh random id (a version-4
    /// UUID in its hyphenated text form), and return the id; `None`, with
    /// the store unchanged, when the system's random source fails.
    pub fn create(&mut self, now_ms: u64) -> (r: Option<String>)
        ensures
            r is None ==> final(self)@ == old(self)@,
            r matches Some(id) ==> final(self)@ == (old(self)@.0, old(self)@.1.insert(id@, now_ms))
                && exists|b: Seq<u8>| b.len() == 16 && id@ == #[trigger] uuid_v4_text(b),
    {
        match random_uuid() {
            None => None,
            Some(id) => {
                self.start_session(String::from_str(id.as_str()), now_ms);
                Some(id)
            },
        }
    }

    /// Check a session id (see `session_check`).
    pub fn validate(&mut self, session_id: &str, now_ms: u64) -> (r: bool)
        ensures
            final(self)@.0 == old(self)@.0,
            (r, final(self)@.1) == session_check(old(self)@.1, old(self)@.0, session_id@, now_ms),
    {
        match sessions_get(&self.sessions, session_id) {
            Some(created) => {
                if elapsed_secs_exec(created, now_ms) < self.ttl_secs {
                    return true;
                }
                sessions_remove(&mut self.sessions, session_id);
                false
            },
            None => false,
        }
    }

    /// Forget a session.
    pub fn invalidate(&mut self, session_id: &str)
        ensures
            final(self)@ == (old(self)@.0, old(self)@.1.remove(session_id@)),
    {
        sessions_remove(&mut self.sessions, session_id);
    }
}

// ─── Cookies ─────────────────────────────────────────────────────

/// The name of the session cookie.
pub const COOKIE_NAME: &'static str = "zo-session";

/// The session id in the cookie pieces, searched left to right: a piece
/// that (trimmed) starts with the cookie name must go on with `=` or the
/// search fails; an empty value is skipped.
pub open spec fn session_in_pieces(pieces: Seq<Seq<char>>) -> Option<Seq<char>>
    decreases pieces.len(),
{
    if pieces.len() == 0 {
        None
    } else {
        let p = trim(pieces[0]);
        if starts_with(p, COOKIE_NAME@) {
            let v = p.skip(COOKIE_NAME@.len() as int);
            if !(v.len() > 0 && v[0] == '=') {
                None
            } else if v.len() > 1 {
                Some(v.skip(1))
            } else {
                session_in_pieces(pieces.drop_first())
            }
        } else {
            session_in_pieces(pieces.drop_first())
        }
    }
}

/// The session id carried by a `Cookie` header (its pieces are separated by `;`).
pub open spec fn session_from_cookie(header: Option<Seq<char>>) -> Option<Seq<char>> {
    match header {
        None => None,
        Some(h) => session_in_pieces(split(h, seq![';'])),
    }
}

/// Extract the session id from the `Cookie` header (`None` when the header
/// is missing or is not visible ASCII).
pub fn extract_session_id(cookie_header: Option<&str>) -> (r: Option<String>)
    ensures
        r is Some <==> session_from_cookie(crate::text::opt_chars(cookie_header)) is Some,
        r matches Some(s) ==> s@ == session_from_cookie(
            crate::text::opt_chars(cookie_header),
        ).unwrap(),
{
    let header = match cookie_header {
        None => return None,
        Some(h) => h,
    };
    let hc = chars_of(header);
    let semi = vec![';'];
    assert(semi@ =~= seq![';']);
    let pieces = split_exec(hc.as_slice(), semi.as_slice());
    let ghost all = views(pieces@);
    let name = chars_of(COOKIE_NAME);
    let mut i: usize = 0;
    assert(all.skip(0) =~= all);
    let ghost goal = session_from_cookie(crate::text::opt_chars(cookie_header));
    assert(goal == session_in_pieces(all));
    while i < pieces.len()
        invariant
            i <= pieces@.len(),
            all == views(pieces@),
            name@ == COOKIE_NAME@,
            goal == session_in_pieces(all.skip(i as int)),
            goal == session_from_cookie(crate::text::opt_chars(cookie_header)),
        decreases pieces.len() - i,
    {
        let ghost q = all.skip(i as int);
        assert(q.len() > 0);
        assert(q[0] == pieces@[i as int]@);
        assert(q.drop_first() =~= all.skip(i + 1));
        let p = trim_chars(pieces[i].as_slice());
        assert(p@ == trim(q[0]));
        if starts_with_exec(p.as_slice(), name.as_slice()) {
            let n = name.len();
            let v = slice_chars(p.as_slice(), n, p.len());
            assert(v@ =~= p@.skip(n as int));
            assert(starts_with(trim(q[0]), COOKIE_NAME@));
            assert(n == COOKIE_NAME@.len());
            if !(v.len() > 0 && v[0] == '=') {
                return None;
            }
            if v.len() > 1 {
                let value = slice_chars(v.as_slice(), 1, v.len());
                assert(value@ =~= v@.skip(1));
                return Some(string_from_chars(value.as_slice()));
            }
        }
        i = i + 1;
    }
    None
}

/// The `Set-Cookie` value of a new session.
pub open spec fn session_cookie_text(session_id: Seq<char>, max_age_secs: u64, tls: bool) -> Seq<
    char,
> {
    COOKIE_NAME@ + "="@ + session_id + "; Path=/; HttpOnly; SameSite=Strict; Max-Age="@ + decimal(
        max_age_secs as nat,
    ) + if tls {
        "; Secure"@
    } else {
        Seq::empty()
    }
}

/// The `Set-Cookie` value that clears the session.
pub open spec fn clear_cookie_text() -> Seq<char> {
    COOKIE_NAME@ + "=; Path=/; HttpOnly; SameSite=Strict; Max-Age=0"@
}

pub fn build_session_cookie(session_id: &str, max_age_secs: u64, tls_enabled: bool) -> (r: String)
    ensures
        r@ == session_cookie_text(session_id@, max_age_secs, tls_enabled),
{
    let mut cookie = String::from_str(COOKIE_NAME);
    cookie.append("=");
    cookie.append(session_id);
    cookie.append("; Path=/; HttpOnly; SameSite=Strict; Max-Age=");
    push_decimal(&mut cookie, max_age_secs);
    if tls_enabled {
        cookie.append("; Secure");
    }
    cookie
}

pub fn build_clear_cookie() -> (r: String)
    ensures
        r@ == clear_cookie_text(),
{
    let mut cookie = String::from_str(COOKIE_NAME);
    cookie.append("=; Path=/; HttpOnly; SameSite=Strict; Max-Age=0");
    cookie
}

/// The request came over TLS: TLS is configured, or the proxy says so in
/// `X-Forwarded-Proto` (`https`, any case, white space around ignored).
pub open spec fn tls_request(tls_configured: bool, forwarded_proto: Option<Seq<char>>) -> bool {
    tls_configured || (forwarded_proto is Some && eq_ignore_ascii_case(
        trim(forwarded_proto.unwrap()),
        "https"@,
    ))
}

pub fn is_tls_enabled(tls_configured: bool, forwarded_proto: Option<&str>) -> (r: bool)
    ensures
        r == tls_request(tls_configured, crate::text::opt_chars(forwarded_proto)),
{
    if tls_configured {
        return true;
    }
    match forwarded_proto {
        Some(p) => {
            let pc = chars_of(p);
            let t = trim_chars(pc.as_slice());
            let https = chars_of("https");
            eq_ignore_ascii_case_exec(t.as_slice(), https.as_slice())
        },
        None => false,
    }
}

/// Whether a request is authenticated, and the sessions after checking it:
/// always when authentication is off; otherwise when its cookie carries a
/// valid session.
pub open spec fn authenticated(
    auth_enabled: bool,
    store: (u64, Map<Seq<char>, u64>),
    cookie_header: Option<Seq<char>>,
    now_ms: u64,
) -> (bool, Map<Seq<char>, u64>) {
    if !auth_enabled {
        (true, store.1)
    } else {
        match session_from_cookie(cookie_header) {
            Some(id) => session_check(store.1, store.0, id, now_ms),
            None => (false, store.1),
        }
    }
}

pub fn is_authenticated(
    auth_enabled: bool,
    sessions: &mut SessionStore,
    cookie_header: Option<&str>,
    now_ms: u64,
) -> (r: bool)
    ensures
        final(sessions)@.0 == old(sessions)@.0,
        (r, final(sessions)@.1) == authenticated(
            auth_enabled,
            old(sessions)@,
            crate::text::opt_chars(cookie_header),
            now_ms,
        ),
{
    if !auth_enabled {
        return true;
    }
    match extract_session_id(cookie_header) {
        Some(id) => sessions.validate(id.as_str(), now_ms),
        None => false,
    }
}

// ─── Login and logout ────────────────────────────────────────────

/// The session check a login request goes through when authentication is on.
pub open spec fn login_check(
    store: (u64, Map<Seq<char>, u64>),
    cookie_header: Option<&str>,
    now_ms: u64,
) -> (bool, Map<Seq<char>, u64>) {
    authenticated(true, store, crate::text::opt_chars(cookie_header), now_ms)
}

/// The answer to a login request.
#[derive(Debug)]
pub struct LoginOutcome {
    /// HTTP status: 200, 401 or 500.
    pub status: u16,
    /// The `Set-Cookie` value of a new session, if one was started.
    pub set_cookie: Option<String>,
    pub success: bool,
    pub message: String,
}

/// The answer to an accepted admin token, given the session that was
/// started for it: 200 with the session's cookie (marked `Secure` over TLS),
/// or 500 without a cookie when no session could be started.
pub fn login_reply(created: Option<&str>, ttl_secs: u64, tls: bool) -> (r: LoginOutcome)
    ensures
        created matches Some(id) ==> r.status == 200 && r.success && r.message@
            == "Login successful"@ && (r.set_cookie matches Some(c) && c@ == session_cookie_text(
            id@,
            ttl_secs,
            tls,
        )),
        created is None ==> r.status == 500 && r.set_cookie is None && !r.success && r.message@
            == "Could not start a session"@,
{
    match created {
        Some(id) => LoginOutcome {
            status: 200,
            set_cookie: Some(build_session_cookie(id, ttl_secs, tls)),
            success: true,
            message: String::from_str("Login successful"),
        },
        None => LoginOutcome {
            status: 500,
            set_cookie: None,
            success: false,
            message: String::from_str("Could not start a session"),
        },
    }
}

/// Answer a dashboard login: with authentication off, success without a
/// session; an already authenticated request, success without a new session;
/// the right admin token (constant-time check), a new session and its cookie
/// (marked `Secure` over TLS), or 500 without a session when the random
/// source for the session id fails; anything else, 401.
pub fn dashboard_login(
    auth_enabled: bool,
    dashboard_token: &str,
    tls_configured: bool,
    forwarded_proto: Option<&str>,
    cookie_header: Option<&str>,
    provided_token: &str,
    sessions: &mut SessionStore,
    now_ms: u64,
) -> (r: LoginOutcome)
    ensures
        final(sessions)@.0 == old(sessions)@.0,
        !auth_enabled ==> r.status == 200 && r.set_cookie is None && r.success && r.message@
            == "Authentication not required"@ && final(sessions)@ == old(sessions)@,
        auth_enabled && login_check(old(sessions)@, cookie_header, now_ms).0 ==> r.status == 200
            && r.set_cookie is None && r.success && r.message@ == "Already authenticated"@
            && final(sessions)@.1 == login_check(old(sessions)@, cookie_header, now_ms).1,
        auth_enabled && !login_check(old(sessions)@, cookie_header, now_ms).0
            && dashboard_token_accepted(dashboard_token@, provided_token@) ==> (r.status == 200
            && r.success && r.message@ == "Login successful"@ && exists|id: Seq<char>|
            #![trigger login_check(old(sessions)@, cookie_header, now_ms).1.insert(id, now_ms)]
            final(sessions)@.1 == login_check(old(sessions)@, cookie_header, now_ms).1.insert(
                id,
                now_ms,
            ) && (r.set_cookie matches Some(c) && c@ == session_cookie_text(
                id,
                old(sessions)@.0,
                tls_request(tls_configured, crate::text::opt_chars(forwarded_proto)),
            ))) || (r.status == 500 && r.set_cookie is None && !r.success && r.message@
                == "Could not start a session"@ && final(sessions)@.1 == login_check(
                old(sessions)@,
                cookie_header,
                now_ms,
            ).1),
        auth_enabled && !login_check(old(sessions)@, cookie_header, now_ms).0
            && !dashboard_token_accepted(dashboard_token@, provided_token@) ==> r.status == 401
            && r.set_cookie is None && !r.success && r.message@ == "Invalid admin token"@
            && final(sessions)@.1 == login_check(old(sessions)@, cookie_header, now_ms).1,
{
    if !auth_enabled {
        return LoginOutcome {
            status: 200,
            set_cookie: None,
            success: true,
            message: String::from_str("Authentication not required"),
        };
    }
    if is_authenticated(true, sessions, cookie_header, now_ms) {
        return LoginOutcome {
            status: 200,
            set_cookie: None,
            success: true,
            message: String::from_str("Already authenticated"),
        };
    }
    let mut check_cfg = ServerConfig::default();
    check_cfg.dashboard_auth.token = String::from_str(dashboard_token);
    if check_cfg.validate_dashboard_token(provided_token) {
        let ghost checked = sessions@.1;
        let created = sessions.create(now_ms);
        let tls = is_tls_enabled(tls_configured, forwarded_proto);
        assert(checked == login_check(old(sessions)@, cookie_header, now_ms).1);
        match &created {
            Some(id) => login_reply(Some(id.as_str()), sessions.ttl_secs(), tls),
            None => login_reply(None, sessions.ttl_secs(), tls),
        }
    } else {
        LoginOutcome {
            status: 401,
            set_cookie: None,
            success: false,
            message: String::from_str("Invalid admin token"),
        }
    }
}

/// Log out: forget the session the cookie carries (if any) and return the
/// `Set-Cookie` value that clears it.
pub fn dashboard_logout(sessions: &mut SessionStore, cookie_header: Option<&str>) -> (r: String)
    ensures
        r@ == clear_cookie_text(),
        final(sessions)@ == (match session_from_cookie(crate::text::opt_chars(cookie_header)) {
            Some(id) => (old(sessions)@.0, old(sessions)@.1.remove(id)),
            None => old(sessions)@,
        }),
{
    if let Some(id) = extract_session_id(cookie_header) {
        sessions.invalidate(id.as_str());
    }
    build_clear_cookie()
}

} // verus!

verus! {

// ─── Status, install script and downloads ────────────────────────

/// The commands the dashboard shows for connecting a client.
#[derive(Debug)]
pub struct StatusCommands {
    pub install_url: String,
    pub install_command: String,
    pub config_command: String,
    pub example_command: String,
}

/// `https://dashboard.{domain}/install`
pub open spec fn install_url_text(domain: Seq<char>) -> Seq<char> {
    "https://dashboard."@ + domain + "/install"@
}

/// The status commands of a server: how to install the client, how to
/// configure it (`{domain}:{port}` and the client token) and an example.
pub fn status_commands(domain: &str, control_port: u16, client_token: &str) -> (r: StatusCommands)
    ensures
        r.install_url@ == install_url_text(domain@),
        r.install_command@ == "curl -sSL "@ + install_url_text(domain@) + " | bash"@,
        r.config_command@ == "zotunnel config set --server "@ + domain@ + ":"@ + decimal(
            control_port as nat,
        ) + " --token "@ + client_token@,
        r.example_command@ == "zotunnel http 3000 --name my-app -d"@,
{
    let mut install_url = String::from_str("https://dashboard.");
    install_url.append(domain);
    install_url.append("/install");
    let mut install_command = String::from_str("curl -sSL ");
    install_command.append(install_url.as_str());
    install_command.append(" | bash");
    let mut config_command = String::from_str("zotunnel config set --server ");
    config_command.append(domain);
    config_command.append(":");
    push_decimal(&mut config_command, control_port as u64);
    config_command.append(" --token ");
    config_command.append(client_token);
    StatusCommands {
        install_url,
        install_command,
        config_command,
        example_command: String::from_str("zotunnel http 3000 --name my-app -d"),
    }
}

/// The install script up to the domain.
pub const INSTALL_SCRIPT_HEAD: &'static str = r#"#!/usr/bin/env bash
set -euo pipefail

DOMAIN=""#;

/// The install script between the domain and the control port.
pub const INSTALL_SCRIPT_MIDDLE: &'static str = r#""
CONTROL_PORT=""#;

/// The install script after the control port.
pub const INSTALL_SCRIPT_TAIL: &'static str = r#""
BASE="https://dashboard.${DOMAIN}"
INSTALL_DIR="$HOME/.zotunnel/bin"
mkdir -p "$INSTALL_DIR"

OS="$(uname -s | tr '[:upper:]' '[:lower:]')"
ARCH="$(uname -m)"
case "$OS" in
  linux) OS_LABEL=linux ;;
  darwin) OS_LABEL=darwin ;;
  *) echo "Unsupported OS: $OS"; exit 1 ;;
esac
case "$ARCH" in
  x86_64|amd64) ARCH_LABEL=amd64 ;;
  aarch64|arm64) ARCH_LABEL=arm64 ;;
  *) echo "Unsupported arch: $ARCH"; exit 1 ;;
esac

FILE="zotunnel-${OS_LABEL}-${ARCH_LABEL}"
URL="${BASE}/download/${FILE}"
SRC_URL="${BASE}/download/zotunnel-src.tar.gz"

install_from_source() {
  echo "▸ Prebuilt binary not available for ${OS_LABEL}-${ARCH_LABEL}"
  echo "▸ Building zotunnel from source (needs Rust + network)..."
  if ! command -v cargo >/dev/null 2>&1; then
    echo "▸ Installing Rust toolchain..."
    curl --proto '=https' --tlsv1.2 -sSf https://sh.rustup.rs | sh -s -- -y --profile minimal
    # shellcheck disable=SC1091
    source "$HOME/.cargo/env"
  fi
  TMP="$(mktemp -d)"
  trap 'rm -rf "$TMP"' EXIT
  curl -fsSL "$SRC_URL" -o "$TMP/src.tar.gz"
  mkdir -p "$TMP/src"
  tar -xzf "$TMP/src.tar.gz" -C "$TMP/src"
  cargo build --release --manifest-path "$TMP/src/Cargo.toml" -p zo-tunnel-client
  cp "$TMP/src/target/release/zotunnel" "$INSTALL_DIR/zotunnel"
  chmod +x "$INSTALL_DIR/zotunnel"
}

echo "▸ Downloading ${FILE}..."
if curl -fsSL "$URL" -o "$INSTALL_DIR/zotunnel"; then
  chmod +x "$INSTALL_DIR/zotunnel"
else
  install_from_source
fi

SHELL_RC=""
case "${SHELL:-}" in
  */zsh) SHELL_RC="$HOME/.zshrc" ;;
  */bash) SHELL_RC="$HOME/.bashrc" ;;
  *) SHELL_RC="$HOME/.profile" ;;
esac
if [ -n "$SHELL_RC" ] && ! grep -q '.zotunnel/bin' "$SHELL_RC" 2>/dev/null; then
  echo 'export PATH="$HOME/.zotunnel/bin:$PATH"' >> "$SHELL_RC"
fi
export PATH="$INSTALL_DIR:$PATH"

echo "✅ zotunnel installed to $INSTALL_DIR/zotunnel"
echo
echo "Next:"
echo "  zotunnel config set --server ${DOMAIN}:${CONTROL_PORT} --token <TOKEN>"
echo "  zotunnel http 3000"
"#;

/// The one-line client installer served at `/install`.
pub open spec fn install_script_text(domain: Seq<char>, control_port: u16) -> Seq<char> {
    INSTALL_SCRIPT_HEAD@ + domain + INSTALL_SCRIPT_MIDDLE@ + decimal(control_port as nat)
        + INSTALL_SCRIPT_TAIL@
}

/// The install script for a server's domain and control port.
pub fn install_script(domain: &str, control_port: u16) -> (r: String)
    ensures
        r@ == install_script_text(domain@, control_port),
{
    let mut s = String::from_str(INSTALL_SCRIPT_HEAD);
    s.append(domain);
    s.append(INSTALL_SCRIPT_MIDDLE);
    push_decimal(&mut s, control_port as u64);
    s.append(INSTALL_SCRIPT_TAIL);
    s
}

/// A character allowed in a download name.
pub open spec fn is_download_char(c: char) -> bool {
    is_ascii_alnum(c) || c == '-' || c == '_' || c == '.'
}

/// A download name is made of ASCII letters, digits, `-`, `_` and `.`, and
/// holds no `..`.
pub open spec fn valid_download_name(name: Seq<char>) -> bool {
    (forall|i: int| 0 <= i < name.len() ==> is_download_char(#[trigger] name[i])) && !contains(
        name,
        ".."@,
    )
}

/// Check a requested file name before it is looked up under the clients directory.
pub fn is_valid_download_name(name: &str) -> (r: bool)
    ensures
        r == valid_download_name(name@),
{
    let cs = chars_of(name);
    let mut i: usize = 0;
    while i < cs.len()
        invariant
            i <= cs.len(),
            cs@ == name@,
            forall|k: int| 0 <= k < i ==> is_download_char(#[trigger] name@[k]),
        decreases cs.len() - i,
    {
        let c = cs[i];
        if !(is_ascii_alnum_char(c) || c == '-' || c == '_' || c == '.') {
            assert(!is_download_char(name@[i as int]));
            return false;
        }
        i = i + 1;
    }
    let dots = chars_of("..");
    !contains_exec(cs.as_slice(), dots.as_slice())
}

/// The archive tried when the name itself is not found: `{name}.tar.gz`.
pub fn download_archive_name(name: &str) -> (r: String)
    ensures
        r@ == name@ + ".tar.gz"@,
{
    let mut s = String::from_str(name);
    s.append(".tar.gz");
    s
}

/// The `Content-Disposition` value of a download.
pub fn content_disposition(file_name: &str) -> (r: String)
    ensures
        r@ == "attachment; filename=\""@ + file_name@ + "\""@,
{
    let mut s = String::from_str("attachment; filename=\"");
    s.append(file_name);
    s.append("\"");
    s
}

} // verus!

verus! {

/// An operation on a session store: start a session under an id at a
/// time (`start_session`, and `create` with the id it drew), check an id at
/// a time (`validate`), or end a session (`invalidate`).
pub enum SessionOp {
    Start { id: Seq<char>, at: u64 },
    Check { id: Seq<char>, at: u64 },
    End { id: Seq<char> },
}

/// The time an operation happens at, if it names one.
pub open spec fn op_time(op: SessionOp) -> Option<u64> {
    match op {
        SessionOp::Start { at, .. } => Some(at),
        SessionOp::Check { at, .. } => Some(at),
        SessionOp::End { .. } => None,
    }
}

/// One operation on the session table, as the store's methods state it:
/// the answer (that of the check; false otherwise) and the table after.
pub open spec fn session_step(sessions: Map<Seq<char>, u64>, ttl_secs: u64, op: SessionOp) -> (
    bool,
    Map<Seq<char>, u64>,
) {
    match op {
        SessionOp::Start { id, at } => (false, sessions.insert(id, at)),
        SessionOp::Check { id, at } => session_check(sessions, ttl_secs, id, at),
        SessionOp::End { id } => (false, sessions.remove(id)),
    }
}

/// A run of operations from the given table: the answers, and the table after.
pub open spec fn replay_sessions(
    sessions: Map<Seq<char>, u64>,
    ttl_secs: u64,
    ops: Seq<SessionOp>,
) -> (Seq<bool>, Map<Seq<char>, u64>)
    decreases ops.len(),
{
    if ops.len() == 0 {
        (Seq::empty(), sessions)
    } else {
        let prev = replay_sessions(sessions, ttl_secs, ops.drop_last());
        let step = session_step(prev.1, ttl_secs, ops.last());
        (prev.0.push(step.0), step.1)
    }
}

/// When the session under `id` was last started, if it was not ended since.
pub open spec fn last_start(ops: Seq<SessionOp>, id: Seq<char>) -> Option<u64>
    decreases ops.len(),
{
    if ops.len() == 0 {
        None
    } else {
        match ops.last() {
            SessionOp::Start { id: x, at } => if x == id {
                Some(at)
            } else {
                last_start(ops.drop_last(), id)
            },
            SessionOp::End { id: x } => if x == id {
                None
            } else {
                last_start(ops.drop_last(), id)
            },
            SessionOp::Check { .. } => last_start(ops.drop_last(), id),
        }
    }
}

/// The time of the last operation that names one.
pub open spec fn latest_time(ops: Seq<SessionOp>) -> Option<u64>
    decreases ops.len(),
{
    if ops.len() == 0 {
        None
    } else if op_time(ops.last()) is Some {
        op_time(ops.last())
    } else {
        latest_time(ops.drop_last())
    }
}

/// The operations' times run forward (a monotonic clock).
pub open spec fn times_forward(ops: Seq<SessionOp>) -> bool {
    forall|i: int, j: int|
        #![trigger op_time(ops[i]), op_time(ops[j])]
        0 <= i <= j < ops.len() && op_time(ops[i]) is Some && op_time(ops[j]) is Some
            ==> op_time(ops[i]).unwrap() <= op_time(ops[j]).unwrap()
}

proof fn lemma_elapsed_monotone(since_ms: u64, t1: u64, t2: u64)
    requires
        t1 <= t2,
    ensures
        elapsed_secs(since_ms, t1) <= elapsed_secs(since_ms, t2),
{
    if t1 >= since_ms {
        let a = (t1 - since_ms) as int;
        let b = (t2 - since_ms) as int;
        assert(a / 1000 <= b / 1000) by (nonlinear_arith)
            requires
                0 <= a <= b,
        ;
    }
}

proof fn lemma_latest_time_is_a_time(ops: Seq<SessionOp>)
    ensures
        latest_time(ops) matches Some(t) ==> exists|k: int|
            0 <= k < ops.len() && #[trigger] op_time(ops[k]) == Some(t),
    decreases ops.len(),
{
    if ops.len() > 0 && op_time(ops.last()) is None {
        lemma_latest_time_is_a_time(ops.drop_last());
        if latest_time(ops) is Some {
            let k = choose|k: int|
                0 <= k < ops.drop_last().len() && #[trigger] op_time(ops.drop_last()[k])
                    == latest_time(ops);
            assert(ops[k] == ops.drop_last()[k]);
        }
    } else if ops.len() > 0 {
        assert(op_time(ops[ops.len() - 1]) == latest_time(ops));
    }
}

/// What the table holds after a run from an empty table: a session whose
/// last start was not ended is either kept with its start time, or was
/// found expired, in which case it is expired at the latest time too.
pub open spec fn sessions_explained(
    ops: Seq<SessionOp>,
    sessions: Map<Seq<char>, u64>,
    ttl_secs: u64,
) -> bool {
    forall|id: Seq<char>|
        #![trigger last_start(ops, id)]
        match last_start(ops, id) {
            None => !sessions.dom().contains(id),
            Some(c) => (sessions.dom().contains(id) && sessions[id] == c) || (
            !sessions.dom().contains(id) && latest_time(ops) is Some && elapsed_secs(
                c,
                latest_time(ops).unwrap(),
            ) >= ttl_secs),
        }
}

proof fn lemma_replay_sessions_state(ttl_secs: u64, ops: Seq<SessionOp>)
    requires
        times_forward(ops),
    ensures
        replay_sessions(no_sessions(), ttl_secs, ops).0.len() == ops.len(),
        sessions_explained(ops, replay_sessions(no_sessions(), ttl_secs, ops).1, ttl_secs),
        forall|i: int|
            0 <= i < ops.len() ==> (#[trigger] ops[i] matches SessionOp::Check { id, at } ==> (
            replay_sessions(no_sessions(), ttl_secs, ops).0[i] <==> (last_start(ops.take(i), id)
                matches Some(c) && elapsed_secs(c, at) < ttl_secs))),
    decreases ops.len(),
{
    if ops.len() > 0 {
        let n = ops.len();
        let d = ops.drop_last();
        assert(times_forward(d)) by {
            assert forall|i: int, j: int|
                0 <= i <= j < d.len() && op_time(d[i]) is Some && op_time(d[j]) is Some implies op_time(
                d[i],
            ).unwrap() <= op_time(d[j]).unwrap() by {
                assert(d[i] == ops[i] && d[j] == ops[j]);
            }
        }
        lemma_replay_sessions_state(ttl_secs, d);
        let prev = replay_sessions(no_sessions(), ttl_secs, d);
        let m = prev.1;
        let o = ops.last();
        let rs = replay_sessions(no_sessions(), ttl_secs, ops).0;
        let m2 = replay_sessions(no_sessions(), ttl_secs, ops).1;
        assert(rs == prev.0.push(session_step(m, ttl_secs, o).0));
        assert(m2 == session_step(m, ttl_secs, o).1);
        // The previous latest time is no later than this operation's time.
        lemma_latest_time_is_a_time(d);
        if latest_time(d) is Some && op_time(o) is Some {
            let k = choose|k: int| 0 <= k < d.len() && #[trigger] op_time(d[k]) == latest_time(d);
            assert(op_time(ops[k]) == op_time(d[k]));
            assert(op_time(ops[n - 1]) == op_time(o));
        }
        assert forall|id: Seq<char>| #![trigger last_start(ops, id)]
            match last_start(ops, id) {
                None => !m2.dom().contains(id),
                Some(c) => (m2.dom().contains(id) && m2[id] == c) || (!m2.dom().contains(id)
                    && latest_time(ops) is Some && elapsed_secs(c, latest_time(ops).unwrap())
                    >= ttl_secs),
            } by {
            assert(sessions_explained(d, m, ttl_secs));
            let before = last_start(d, id);
            match o {
                SessionOp::Start { id: x, at } => {
                    if x != id && before is Some && !m.dom().contains(id) {
                        lemma_elapsed_monotone(before.unwrap(), latest_time(d).unwrap(), at);
                    }
                },
                SessionOp::End { id: x } => {},
                SessionOp::Check { id: x, at } => {
                    if before is Some && !m.dom().contains(id) {
                        lemma_elapsed_monotone(before.unwrap(), latest_time(d).unwrap(), at);
                    }
                },
            }
        }
        assert forall|i: int|
            0 <= i < ops.len() implies (#[trigger] ops[i] matches SessionOp::Check { id, at } ==> (
            rs[i] <==> (last_start(ops.take(i), id) matches Some(c) && elapsed_secs(c, at)
                < ttl_secs))) by {
            if i < n - 1 {
                assert(ops.take(i) =~= d.take(i));
                assert(ops[i] == d[i]);
                assert(rs[i] == prev.0[i]);
            } else {
                assert(ops.take(i) =~= d);
                if let SessionOp::Check { id, at } = o {
                    assert(sessions_explained(d, m, ttl_secs));
                    let before = last_start(d, id);
                    if before is Some && !m.dom().contains(id) {
                        lemma_elapsed_monotone(before.unwrap(), latest_time(d).unwrap(), at);
                    }
                }
            }
        }
    }
}

/// The law of a session store over its whole history: starting from an
/// empty store, with times that run forward, a check of an id passes exactly
/// when a session was started under it and not ended since, and fewer whole
/// seconds than the time-to-live have passed since its last start. (A
/// session found expired is forgotten, and stays refused.)
pub proof fn lemma_session_history(ttl_secs: u64, ops: Seq<SessionOp>)
    requires
        times_forward(ops),
    ensures
        replay_sessions(no_sessions(), ttl_secs, ops).0.len() == ops.len(),
        forall|i: int|
            0 <= i < ops.len() ==> (#[trigger] ops[i] matches SessionOp::Check { id, at } ==> (
            replay_sessions(no_sessions(), ttl_secs, ops).0[i] <==> (last_start(ops.take(i), id)
                matches Some(c) && elapsed_secs(c, at) < ttl_secs))),
{
    lemma_replay_sessions_state(ttl_secs, ops);
}

/// A session just created is valid at once (for any positive time-to-live),
/// and stays in the store.
pub proof fn lemma_new_session_valid(
    sessions: Map<Seq<char>, u64>,
    ttl_secs: u64,
    id: Seq<char>,
    now_ms: u64,
)
    requires
        ttl_secs > 0,
    ensures
        session_check(sessions.insert(id, now_ms), ttl_secs, id, now_ms) == (
            true,
            sessions.insert(id, now_ms),
        ),
{
}

/// A session that was invalidated (logged out) is refused.
pub proof fn lemma_invalidated_session_refused(
    sessions: Map<Seq<char>, u64>,
    ttl_secs: u64,
    id: Seq<char>,
    now_ms: u64,
)
    ensures
        !session_check(sessions.remove(id), ttl_secs, id, now_ms).0,
{
}

/// An expired session is refused and forgotten, so it stays refused later.
pub proof fn lemma_expired_session_forgotten(
    sessions: Map<Seq<char>, u64>,
    ttl_secs: u64,
    id: Seq<char>,
    now_ms: u64,
    later_ms: u64,
)
    requires
        sessions.dom().contains(id),
        elapsed_secs(sessions[id], now_ms) >= ttl_secs,
    ensures
        !session_check(sessions, ttl_secs, id, now_ms).0,
        !session_check(sessions, ttl_secs, id, now_ms).1.dom().contains(id),
        !session_check(session_check(sessions, ttl_secs, id, now_ms).1, ttl_secs, id, later_ms).0,
{
}

/// A session id with no `;` and no white space is read back from the cookie
/// `zo-session=<id>` a browser returns.
pub proof fn lemma_cookie_roundtrip(id: Seq<char>)
    requires
        id.len() > 0,
        forall|i: int| 0 <= i < id.len() ==> #[trigger] id[i] != ';' && !is_whitespace(id[i]),
    ensures
        session_from_cookie(Some(COOKIE_NAME@ + "="@ + id)) == Some(id),
{
    reveal_strlit("zo-session");
    reveal_strlit("=");
    let c = COOKIE_NAME@ + "="@ + id;
    assert(c.len() == 11 + id.len());
    assert forall|k: int| 0 <= k < c.len() implies c[k] != ';' && !is_whitespace(c[k]) by {
        if k >= 11 {
            assert(c[k] == id[k - 11]);
        }
    }
    lemma_no_match_single_char(c, ';');
    assert(split(c, seq![';']) == seq![c]);
    lemma_trim_no_whitespace(c);
    assert(trim(c) == c);
    assert(c.take(10) =~= COOKIE_NAME@);
    assert(c.skip(10) =~= "="@ + id);
    assert(c.skip(10).skip(1) =~= id);
    assert(seq![c].drop_first() =~= Seq::<Seq<char>>::empty());
}

/// A character that does not occur in `s` is never found in it.
pub proof fn lemma_no_match_single_char(s: Seq<char>, ch: char)
    requires
        forall|i: int| 0 <= i < s.len() ==> #[trigger] s[i] != ch,
    ensures
        crate::text::find(s, seq![ch]) is None,
{
    crate::text::lemma_find_from_bounds(s, seq![ch], 0);
    if let Some(j) = crate::text::find(s, seq![ch]) {
        assert(s.subrange(j, j + 1)[0] == s[j]);
    }
}

/// Trimming a string without white space leaves it unchanged.
pub proof fn lemma_trim_no_whitespace(s: Seq<char>)
    requires
        forall|i: int| 0 <= i < s.len() ==> !is_whitespace(#[trigger] s[i]),
    ensures
        trim(s) == s,
{
    if s.len() > 0 {
        assert(!is_whitespace(s[0]));
        assert(!is_whitespace(s.last()));
    }
}

} // verus!
