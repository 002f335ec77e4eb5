//! Server configuration: defaults, token checks, where the file lives, and
//! how command-line values and environment overrides shape it. Reading and
//! writing the YAML file is left to the caller.

use crate::protocol::{DEFAULT_CONTROL_PORT, DEFAULT_PUBLIC_PORT};
use crate::random::random_hex;
use crate::text::{hex_encode, join_path, opt_chars, path_join, str_eq};
use crate::traefik::TraefikConfig;
use subtle::ConstantTimeEq;
use vstd::prelude::*;
use vstd::string::*;
use vstd::utf8::*;

verus! {

/// A subdomain that cannot be used as a client ID.
pub open spec fn is_reserved(id: Seq<char>) -> bool {
    ||| id == "dashboard"@
    ||| id == "connect"@
    ||| id == "api"@
    ||| id == "www"@
    ||| id == "admin"@
    ||| id == "install"@
    ||| id == "download"@
}

/// Reserved subdomains (dashboard, connect, api, www, admin, install,
/// download) cannot be used as client IDs.
pub fn is_reserved_subdomain(id: &str) -> (r: bool)
    ensures
        r == is_reserved(id@),
{
    str_eq(id, "dashboard") || str_eq(id, "connect") || str_eq(id, "api") || str_eq(id, "www")
        || str_eq(id, "admin") || str_eq(id, "install") || str_eq(id, "download")
}

#[derive(Debug, Clone)]
pub struct ServerConfig {
    pub control_port: u16,
    /// Public HTTP port (subdomain routing + dashboard).
    pub public_port: u16,
    /// Base domain for subdomain routing (e.g. "tunnel.zobite.com").
    /// Each client is accessible at <client_id>.<domain>.
    /// Dashboard is at dashboard.<domain>.
    pub domain: String,
    pub auth: AuthConfig,
    pub dashboard_auth: DashboardAuthConfig,
    pub rate_limit: RateLimitConfig,
    pub traefik: TraefikConfig,
    /// Directory containing client binaries served at /download/
    pub clients_dir: String,
    pub log_level: String,
}

#[derive(Debug, Clone)]
pub struct AuthConfig {
    pub tokens: Vec<String>,
}

/// Dashboard authentication configuration.
#[derive(Debug, Clone)]
pub struct DashboardAuthConfig {
    /// Token required to access the dashboard. If empty, dashboard is open.
    pub token: String,
    /// Session cookie TTL in seconds (default: 24 hours).
    pub session_ttl_secs: u64,
}

#[derive(Debug, Clone, Copy, PartialEq, Eq, Structural)]
pub struct RateLimitConfig {
    pub requests_per_second: u32,
    pub max_connections_per_client: u32,
}

pub fn default_control_port() -> (r: u16)
    ensures
        r == DEFAULT_CONTROL_PORT,
{
    DEFAULT_CONTROL_PORT
}

pub fn default_public_port() -> (r: u16)
    ensures
        r == DEFAULT_PUBLIC_PORT,
{
    DEFAULT_PUBLIC_PORT
}

pub fn default_log_level() -> (r: String)
    ensures
        r@ == "info"@,
{
    String::from_str("info")
}

pub fn default_clients_dir() -> (r: String)
    ensures
        r@ == "/var/lib/zo-tunnel/clients"@,
{
    String::from_str("/var/lib/zo-tunnel/clients")
}

pub fn default_rps() -> (r: u32)
    ensures
        r == 100,
{
    100
}

pub fn default_max_conn() -> (r: u32)
    ensures
        r == 50,
{
    50
}

/// 24 hours.
pub fn default_session_ttl() -> (r: u64)
    ensures
        r == 86400,
{
    86400
}

impl Default for AuthConfig {
    fn default() -> (r: Self)
        ensures
            r.tokens@.len() == 0,
    {
        AuthConfig { tokens: Vec::new() }
    }
}

impl Default for DashboardAuthConfig {
    fn default() -> (r: Self)
        ensures
            r.token@.len() == 0,
            r.session_ttl_secs == 86400,
    {
        DashboardAuthConfig { token: String::new(), session_ttl_secs: default_session_ttl() }
    }
}

impl Default for RateLimitConfig {
    fn default() -> (r: Self)
        ensures
            r.requests_per_second == 100,
            r.max_connections_per_client == 50,
    {
        RateLimitConfig { requests_per_second: 100, max_connections_per_client: 50 }
    }
}

/// The configuration a server has before a file or the command line says
/// otherwise.
pub open spec fn is_default_config(c: ServerConfig) -> bool {
    &&& c.control_port == DEFAULT_CONTROL_PORT
    &&& c.public_port == DEFAULT_PUBLIC_PORT
    &&& c.domain@.len() == 0
    &&& c.auth.tokens@.len() == 0
    &&& c.dashboard_auth.token@.len() == 0
    &&& c.dashboard_auth.session_ttl_secs == 86400
    &&& c.rate_limit == RateLimitConfig { requests_per_second: 100, max_connections_per_client: 50 }
    &&& crate::traefik::is_default_traefik(c.traefik, false, crate::traefik::DYNAMIC_DIR@)
    &&& c.clients_dir@ == "/var/lib/zo-tunnel/clients"@
    &&& c.log_level@ == "info"@
}

impl Default for ServerConfig {
    fn default() -> (r: Self)
        ensures
            is_default_config(r),
    {
        ServerConfig {
            control_port: default_control_port(),
            public_port: default_public_port(),
            domain: String::new(),
            auth: AuthConfig::default(),
            dashboard_auth: DashboardAuthConfig::default(),
            rate_limit: RateLimitConfig::default(),
            traefik: TraefikConfig::default(),
            clients_dir: default_clients_dir(),
            log_level: default_log_level(),
        }
    }
}

/// A token is accepted when no tokens are configured, or when it is one of them.
pub open spec fn token_accepted(tokens: Seq<String>, token: Seq<char>) -> bool {
    tokens.len() == 0 || exists|i: int| 0 <= i < tokens.len() && #[trigger] tokens[i]@ == token
}

/// A dashboard token is accepted when no dashboard token is configured, or
/// when it equals the configured one.
pub open spec fn dashboard_token_accepted(configured: Seq<char>, token: Seq<char>) -> bool {
    configured.len() == 0 || configured == token
}

/// `ConstantTimeEq::ct_eq` on byte slices, turned into a `bool`: the slices
/// are equal (the source compares lengths first, then every byte).
#[verifier::external_body]
fn ct_eq_bytes(a: &[u8], b: &[u8]) -> (r: bool)
    ensures
        r == (a@ == b@),
{
    a.ct_eq(b).into()
}

/// `/etc/zo-tunnel/server.yaml`, the system-wide config file.
pub const SYSTEM_CONFIG_PATH: &'static str = "/etc/zo-tunnel/server.yaml";

/// The directory under which a non-root server keeps its config.
pub open spec fn fallback_dir(xdg_config_home: Option<Seq<char>>, home: Option<Seq<char>>) -> Seq<
    char,
> {
    match xdg_config_home {
        Some(x) => x,
        None => path_join(
            match home {
                Some(h) => h,
                None => "/tmp"@,
            },
            ".config"@,
        ),
    }
}

/// Fallback config dir: `$XDG_CONFIG_HOME`, else `$HOME/.config`, else `/tmp/.config`.
pub fn dirs_fallback(xdg_config_home: Option<&str>, home: Option<&str>) -> (r: String)
    ensures
        r@ == fallback_dir(opt_chars(xdg_config_home), opt_chars(home)),
{
    match xdg_config_home {
        Some(x) => String::from_str(x),
        None => match home {
            Some(h) => join_path(h, ".config"),
            None => join_path("/tmp", ".config"),
        },
    }
}

impl ServerConfig {
    /// Config directory for saving (used by `start --domain`):
    /// `/etc/zo-tunnel/` when running as root, `<fallback>/zo-tunnel`
    /// otherwise.
    pub fn config_dir(is_root: bool, fallback: &str) -> (r: String)
        ensures
            is_root ==> r@ == "/etc/zo-tunnel"@,
            !is_root ==> r@ == path_join(fallback@, "zo-tunnel"@),
    {
        if is_root {
            String::from_str("/etc/zo-tunnel")
        } else {
            join_path(fallback, "zo-tunnel")
        }
    }

    /// Full path to the server config file (for saving).
    pub fn config_path(config_dir: &str) -> (r: String)
        ensures
            r@ == path_join(config_dir@, "server.yaml"@),
    {
        join_path(config_dir, "server.yaml")
    }

    /// The per-user config file, `<fallback>/zo-tunnel/server.yaml`.
    pub fn user_config_path(fallback: &str) -> (r: String)
        ensures
            r@ == path_join(path_join(fallback@, "zo-tunnel"@), "server.yaml"@),
    {
        let d = join_path(fallback, "zo-tunnel");
        join_path(d.as_str(), "server.yaml")
    }

    /// Resolve the config path for loading: `/etc/zo-tunnel/server.yaml`
    /// when it exists, else the per-user file when it exists, else none.
    /// The caller says which files exist.
    pub fn resolve_config_path(fallback: &str, system_exists: bool, user_exists: bool) -> (r:
        Option<String>)
        ensures
            system_exists ==> (r matches Some(p) && p@ == SYSTEM_CONFIG_PATH@),
            !system_exists && user_exists ==> (r matches Some(p) && p@ == path_join(
                path_join(fallback@, "zo-tunnel"@),
                "server.yaml"@,
            )),
            !system_exists && !user_exists ==> r is None,
    {
        if system_exists {
            Some(String::from_str(SYSTEM_CONFIG_PATH))
        } else if user_exists {
            Some(Self::user_config_path(fallback))
        } else {
            None
        }
    }

    /// Generate a cryptographically secure random hex token of `len_bytes`
    /// bytes; `None` when the system's random source fails.
    pub fn generate_token(len_bytes: usize) -> (r: Option<String>)
        ensures
            r matches Some(s) ==> exists|b: Seq<u8>| b.len() == len_bytes && s@ == #[trigger] hex_encode(b),
            len_bytes == 0 ==> (r matches Some(s) && s@ == Seq::<char>::empty()),
    {
        random_hex(len_bytes)
    }

    /// Check if a token is valid. If no tokens configured, all are accepted.
    pub fn validate_token(&self, token: &str) -> (r: bool)
        ensures
            r == token_accepted(self.auth.tokens@, token@),
    {
        if self.auth.tokens.len() == 0 {
            return true;
        }
        let mut i: usize = 0;
        while i < self.auth.tokens.len()
            invariant
                i <= self.auth.tokens@.len(),
                forall|k: int| 0 <= k < i ==> self.auth.tokens@[k]@ != token@,
            decreases self.auth.tokens.len() - i,
        {
            if str_eq(self.auth.tokens[i].as_str(), token) {
                return true;
            }
            i = i + 1;
        }
        false
    }

    /// Check if the dashboard requires authentication.
    pub fn dashboard_auth_enabled(&self) -> (r: bool)
        ensures
            r == (self.dashboard_auth.token@.len() > 0),
    {
        !self.dashboard_auth.token.as_str().is_empty()
    }

    /// Validate a dashboard token using constant-time comparison.
    pub fn validate_dashboard_token(&self, token: &str) -> (r: bool)
        ensures
            r == dashboard_token_accepted(self.dashboard_auth.token@, token@),
    {
        if !self.dashboard_auth_enabled() {
            return true;
        }
        let expected = self.dashboard_auth.token.as_str().as_bytes();
        let provided = token.as_bytes();
        proof {
            encode_utf8_decode_utf8(self.dashboard_auth.token@);
            encode_utf8_decode_utf8(token@);
        }
        expected.len() == provided.len() && ct_eq_bytes(expected, provided)
    }
}

/// The token a fresh config gets: the one given, unless it is missing or
/// empty, in which case a random hex token of `n` bytes.
pub open spec fn chosen_token(given: Option<Seq<char>>, result: Seq<char>, n: nat) -> bool {
    if given is Some && given.unwrap().len() > 0 {
        result == given.unwrap()
    } else {
        exists|b: Seq<u8>| b.len() == n && result == #[trigger] hex_encode(b)
    }
}

fn given_or_random(given: Option<&str>, n: usize) -> (r: Option<String>)
    ensures
        r matches Some(s) ==> chosen_token(opt_chars(given), s@, n as nat),
        given is Some && given.unwrap()@.len() > 0 ==> r is Some,
{
    match given {
        Some(t) => {
            if !t.is_empty() {
                return Some(String::from_str(t));
            }
        },
        None => {},
    }
    ServerConfig::generate_token(n)
}

/// The config written on the first start: the domain and ports given, the
/// client token and dashboard token given (random ones of 24 and 16 bytes
/// when missing or empty), the Traefik settings found, defaults elsewhere.
/// `None` when a token had to be generated and the random source failed.
pub fn build_config(
    domain: &str,
    control_port: u16,
    public_port: u16,
    token: Option<&str>,
    dashboard_token: Option<&str>,
    traefik: TraefikConfig,
) -> (r: Option<ServerConfig>)
    ensures
        token is Some && token.unwrap()@.len() > 0 && dashboard_token is Some
            && dashboard_token.unwrap()@.len() > 0 ==> r is Some,
        r matches Some(c) ==> {
            &&& c.domain@ == domain@
            &&& c.control_port == control_port
            &&& c.public_port == public_port
            &&& c.auth.tokens@.len() == 1
            &&& chosen_token(opt_chars(token), c.auth.tokens@[0]@, 24)
            &&& chosen_token(opt_chars(dashboard_token), c.dashboard_auth.token@, 16)
            &&& c.dashboard_auth.session_ttl_secs == 86400
            &&& c.rate_limit == RateLimitConfig {
                requests_per_second: 100,
                max_connections_per_client: 50,
            }
            &&& c.traefik == traefik
            &&& c.clients_dir@ == "/var/lib/zo-tunnel/clients"@
            &&& c.log_level@ == "info"@
        },
{
    let client_token = match given_or_random(token, 24) {
        Some(t) => t,
        None => return None,
    };
    let dash_token = match given_or_random(dashboard_token, 16) {
        Some(t) => t,
        None => return None,
    };
    let mut cfg = ServerConfig::default();
    cfg.domain = String::from_str(domain);
    cfg.control_port = control_port;
    cfg.public_port = public_port;
    let mut tokens: Vec<String> = Vec::new();
    tokens.push(client_token);
    cfg.auth.tokens = tokens;
    cfg.dashboard_auth.token = dash_token;
    cfg.traefik = traefik;
    Some(cfg)
}

/// The environment variables that override a loaded config.
#[derive(Debug, Clone)]
pub struct EnvOverrides {
    /// `ZO_TRAEFIK_CONFIG_DIR`
    pub traefik_config_dir: Option<String>,
    /// `ZO_TRAEFIK_SERVICE_URL`
    pub traefik_service_url: Option<String>,
    /// `ZO_TRAEFIK_ENABLED`
    pub traefik_enabled: Option<String>,
    /// `ZO_CLIENTS_DIR`
    pub clients_dir: Option<String>,
    /// `ZO_TOKEN`
    pub token: Option<String>,
    /// `ZO_DASHBOARD_TOKEN`
    pub dashboard_token: Option<String>,
}

/// Apply environment overrides: a Traefik directory enables Traefik and
/// sets the directory; a service URL is taken as is; `ZO_TRAEFIK_ENABLED=true`
/// enables Traefik; a clients directory is taken as is; a non-empty client
/// token replaces the token list; a non-empty dashboard token replaces the
/// dashboard token. Everything else stays.
pub fn apply_env_overrides(cfg: &mut ServerConfig, env: &EnvOverrides)
    ensures
        final(cfg).control_port == old(cfg).control_port,
        final(cfg).public_port == old(cfg).public_port,
        final(cfg).domain == old(cfg).domain,
        final(cfg).rate_limit == old(cfg).rate_limit,
        final(cfg).log_level == old(cfg).log_level,
        final(cfg).dashboard_auth.session_ttl_secs == old(cfg).dashboard_auth.session_ttl_secs,
        final(cfg).traefik.entrypoint == old(cfg).traefik.entrypoint,
        final(cfg).traefik.cert_resolver == old(cfg).traefik.cert_resolver,
        final(cfg).traefik.enabled == (old(cfg).traefik.enabled || env.traefik_config_dir is Some
            || (env.traefik_enabled is Some && env.traefik_enabled.unwrap()@ == "true"@)),
        final(cfg).traefik.config_dir@ == (match env.traefik_config_dir {
            Some(d) => d@,
            None => old(cfg).traefik.config_dir@,
        }),
        final(cfg).traefik.service_url@ == (match env.traefik_service_url {
            Some(u) => u@,
            None => old(cfg).traefik.service_url@,
        }),
        final(cfg).clients_dir@ == (match env.clients_dir {
            Some(d) => d@,
            None => old(cfg).clients_dir@,
        }),
        env.token is Some && env.token.unwrap()@.len() > 0 ==> final(cfg).auth.tokens@.len() == 1
            && final(cfg).auth.tokens@[0]@ == env.token.unwrap()@,
        !(env.token is Some && env.token.unwrap()@.len() > 0) ==> final(cfg).auth.tokens
            == old(cfg).auth.tokens,
        final(cfg).dashboard_auth.token@ == (if env.dashboard_token is Some
            && env.dashboard_token.unwrap()@.len() > 0 {
            env.dashboard_token.unwrap()@
        } else {
            old(cfg).dashboard_auth.token@
        }),
{
    if let Some(dir) = &env.traefik_config_dir {
        cfg.traefik.enabled = true;
        cfg.traefik.config_dir = String::from_str(dir.as_str());
    }
    if let Some(url) = &env.traefik_service_url {
        cfg.traefik.service_url = String::from_str(url.as_str());
    }
    if let Some(e) = &env.traefik_enabled {
        if str_eq(e.as_str(), "true") {
            cfg.traefik.enabled = true;
        }
    }
    if let Some(dir) = &env.clients_dir {
        cfg.clients_dir = String::from_str(dir.as_str());
    }
    if let Some(token) = &env.token {
        if !token.as_str().is_empty() {
            let mut tokens: Vec<String> = Vec::new();
            tokens.push(String::from_str(token.as_str()));
            cfg.auth.tokens = tokens;
        }
    }
    if let Some(token) = &env.dashboard_token {
        if !token.as_str().is_empty() {
            cfg.dashboard_auth.token = String::from_str(token.as_str());
        }
    }
}

/// On start, an existing config file is loaded unless `--force` asks for a
/// new one.
pub fn should_load_config(file_exists: bool, force: bool) -> (r: bool)
    ensures
        r == (file_exists && !force),
{
    file_exists && !force
}

/// The text of the config file written on the first start: a header naming
/// the file, then the YAML.
pub fn first_run_config_text(config_path: &str, yaml: &str) -> (r: String)
    ensures
        r@ == "# Zo Tunnel Server Configuration\n# Config path: "@ + config_path@ + "\n\n"@ + yaml@,
{
    let mut t = String::from_str("# Zo Tunnel Server Configuration\n# Config path: ");
    t.append(config_path);
    t.append("\n\n");
    t.append(yaml);
    t
}

/// The text of a config file saved with `save`: a header naming the file
/// and how to regenerate it, then the YAML.
pub fn saved_config_text(config_path: &str, yaml: &str) -> (r: String)
    ensures
        r@ == "# Zo Tunnel Server Configuration\n# Generated by: zo-tunnel-server start --domain\n# Config path: "@
            + config_path@
            + "\n#\n# To reconfigure, run: zo-tunnel-server start --domain YOUR_DOMAIN --force\n\n"@
            + yaml@,
{
    let mut t = String::from_str(
        "# Zo Tunnel Server Configuration\n# Generated by: zo-tunnel-server start --domain\n# Config path: ",
    );
    t.append(config_path);
    t.append("\n#\n# To reconfigure, run: zo-tunnel-server start --domain YOUR_DOMAIN --force\n\n");
    t.append(yaml);
    t
}

} // verus!
