//! Traefik file-provider integration (host Traefik + shared dynamic dir).
//!
//! - `_zo-tunnel-base.yml` — shared service + dashboard/apex routers
//! - `zo-tunnel-{client}.yml` — router only, points at shared service
//!
//! This module decides the file names and their YAML text; writing and
//! removing the files is left to the caller.

use crate::text::{
    chars_of, ends_with, ends_with_exec, is_ascii_alnum, is_ascii_alnum_char, join_path,
    path_join, push_char, starts_with, starts_with_exec, str_eq,
};
use vstd::prelude::*;
use vstd::string::*;

verus! {

/// The Traefik service shared by every route.
pub const SHARED_SERVICE: &'static str = "zo-tunnel-server";

/// The file that holds the shared service and the dashboard/apex routers.
pub const BASE_FILE: &'static str = "_zo-tunnel-base.yml";

/// The two dynamic-configuration directories probed by `auto_detect`.
pub const DYNAMIC_DIR: &'static str = "/etc/traefik/dynamic";

/// The second directory probed by `auto_detect`.
pub const CONF_D_DIR: &'static str = "/etc/traefik/conf.d";

/// Traefik settings of the server.
#[derive(Debug, Clone)]
pub struct TraefikConfig {
    pub enabled: bool,
    pub config_dir: String,
    pub entrypoint: String,
    pub cert_resolver: String,
    pub service_url: String,
}

/// Default dynamic-configuration directory.
pub fn default_config_dir() -> (r: String)
    ensures
        r@ == DYNAMIC_DIR@,
{
    String::from_str(DYNAMIC_DIR)
}

/// Default entry point.
pub fn default_entrypoint() -> (r: String)
    ensures
        r@ == "websecure"@,
{
    String::from_str("websecure")
}

/// Default certificate resolver.
pub fn default_cert_resolver() -> (r: String)
    ensures
        r@ == "letsencrypt"@,
{
    String::from_str("letsencrypt")
}

/// Default URL of the tunnel server behind Traefik.
pub fn default_service_url() -> (r: String)
    ensures
        r@ == "http://127.0.0.1:6210"@,
{
    String::from_str("http://127.0.0.1:6210")
}

/// The default settings, with the given `enabled` flag and directory.
pub open spec fn is_default_traefik(c: TraefikConfig, enabled: bool, dir: Seq<char>) -> bool {
    &&& c.enabled == enabled
    &&& c.config_dir@ == dir
    &&& c.entrypoint@ == "websecure"@
    &&& c.cert_resolver@ == "letsencrypt"@
    &&& c.service_url@ == "http://127.0.0.1:6210"@
}

impl Default for TraefikConfig {
    fn default() -> (r: Self)
        ensures
            is_default_traefik(r, false, DYNAMIC_DIR@),
    {
        TraefikConfig {
            enabled: false,
            config_dir: default_config_dir(),
            entrypoint: default_entrypoint(),
            cert_resolver: default_cert_resolver(),
            service_url: default_service_url(),
        }
    }
}

impl TraefikConfig {
    /// Enable Traefik when a dynamic-configuration directory exists, the
    /// first of `/etc/traefik/dynamic` and `/etc/traefik/conf.d` that does;
    /// otherwise the (disabled) defaults. The caller says which directories
    /// exist.
    pub fn auto_detect(dynamic_exists: bool, conf_d_exists: bool) -> (r: Self)
        ensures
            dynamic_exists ==> is_default_traefik(r, true, DYNAMIC_DIR@),
            !dynamic_exists && conf_d_exists ==> is_default_traefik(r, true, CONF_D_DIR@),
            !dynamic_exists && !conf_d_exists ==> is_default_traefik(r, false, DYNAMIC_DIR@),
    {
        if dynamic_exists {
            let mut c = TraefikConfig::default();
            c.enabled = true;
            c.config_dir = String::from_str(DYNAMIC_DIR);
            c
        } else if conf_d_exists {
            let mut c = TraefikConfig::default();
            c.enabled = true;
            c.config_dir = String::from_str(CONF_D_DIR);
            c
        } else {
            TraefikConfig::default()
        }
    }
}

/// Builds the Traefik route files of a server.
pub struct TraefikManager {
    pub config: TraefikConfig,
    pub domain: String,
}

/// A character kept as is in a route name.
pub open spec fn is_safe_id_char(c: char) -> bool {
    is_ascii_alnum(c) || c == '-' || c == '_'
}

/// `id` with every character other than ASCII letters, digits, `-` and `_`
/// replaced by `_`.
pub open spec fn sanitized(id: Seq<char>) -> Seq<char> {
    Seq::new(id.len(), |i: int| if is_safe_id_char(id[i]) { id[i] } else { '_' })
}

/// Replace every character that may not appear in a route name by `_`.
pub fn sanitize_id(id: &str) -> (r: String)
    ensures
        r@ == sanitized(id@),
{
    let cs = chars_of(id);
    let mut r = String::new();
    let mut i: usize = 0;
    while i < cs.len()
        invariant
            i <= cs.len(),
            cs@ == id@,
            r@ == sanitized(id@).take(i as int),
        decreases cs.len() - i,
    {
        let c = cs[i];
        if is_ascii_alnum_char(c) || c == '-' || c == '_' {
            push_char(&mut r, c);
        } else {
            push_char(&mut r, '_');
        }
        assert(sanitized(id@).take(i + 1) =~= sanitized(id@).take(i as int).push(
            sanitized(id@)[i as int],
        ));
        i = i + 1;
    }
    assert(sanitized(id@).take(cs.len() as int) =~= sanitized(id@));
    r
}

/// The text of the base file.
pub open spec fn static_routes_text(
    domain: Seq<char>,
    ep: Seq<char>,
    cr: Seq<char>,
    url: Seq<char>,
) -> Seq<char> {
    "http:\n  routers:\n    zo-tunnel-dashboard:\n      rule: \"Host(`dashboard."@ + domain
        + "`)\"\n      entryPoints:\n        - \""@ + ep + "\"\n      service: "@ + SHARED_SERVICE@
        + "\n      tls:\n        certResolver: "@ + cr
        + "\n    zo-tunnel-apex:\n      rule: \"Host(`"@ + domain
        + "`)\"\n      entryPoints:\n        - \""@ + ep + "\"\n      service: "@ + SHARED_SERVICE@
        + "\n      tls:\n        certResolver: "@ + cr + "\n  services:\n    "@ + SHARED_SERVICE@
        + ":\n      loadBalancer:\n        servers:\n          - url: \""@ + url + "\"\n"@
}

/// The text of a client's route file.
pub open spec fn client_route_text(
    safe: Seq<char>,
    host: Seq<char>,
    ep: Seq<char>,
    cr: Seq<char>,
) -> Seq<char> {
    "http:\n  routers:\n    zo-tunnel-"@ + safe + ":\n      rule: \"Host(`"@ + host
        + "`)\"\n      entryPoints:\n        - \""@ + ep + "\"\n      service: "@ + SHARED_SERVICE@
        + "\n      tls:\n        certResolver: "@ + cr + "\n"@
}

/// Traefik keeps these files when it cleans up client routes: the base file,
/// the dashboard router and the static file; it removes the other
/// `zo-tunnel-*.yml` and the legacy `zo-*.yml` files.
pub open spec fn is_stale_route_file(name: Seq<char>) -> bool {
    ||| starts_with(name, "zo-tunnel-"@) && ends_with(name, ".yml"@) && name != BASE_FILE@
        && name != "zo-tunnel-dashboard.yml"@
    ||| starts_with(name, "zo-"@) && ends_with(name, ".yml"@) && !starts_with(name, "zo-tunnel-"@)
        && name != "zo-static.yml"@
}

/// The file `cleanup_clients` removes from the dynamic directory.
pub fn is_stale_route_file_exec(name: &str) -> (r: bool)
    ensures
        r == is_stale_route_file(name@),
{
    let n = chars_of(name);
    let tunnel = chars_of("zo-tunnel-");
    let zo = chars_of("zo-");
    let yml = chars_of(".yml");
    let is_tunnel = starts_with_exec(n.as_slice(), tunnel.as_slice());
    let is_yml = ends_with_exec(n.as_slice(), yml.as_slice());
    (is_tunnel && is_yml && !str_eq(name, BASE_FILE) && !str_eq(name, "zo-tunnel-dashboard.yml"))
        || (starts_with_exec(n.as_slice(), zo.as_slice()) && is_yml && !is_tunnel && !str_eq(
        name,
        "zo-static.yml",
    ))
}

impl TraefikManager {
    pub fn new(config: TraefikConfig, domain: String) -> (r: Self)
        ensures
            r.config == config,
            r.domain == domain,
    {
        TraefikManager { config, domain }
    }

    /// The path of the base file.
    pub fn base_file(&self) -> (r: String)
        ensures
            r@ == path_join(self.config.config_dir@, BASE_FILE@),
    {
        join_path(self.config.config_dir.as_str(), BASE_FILE)
    }

    /// The text of the base file: shared service plus separate routers for
    /// the dashboard and the apex domain.
    pub fn static_routes(&self) -> (r: String)
        ensures
            r@ == static_routes_text(
                self.domain@,
                self.config.entrypoint@,
                self.config.cert_resolver@,
                self.config.service_url@,
            ),
    {
        let domain = self.domain.as_str();
        let ep = self.config.entrypoint.as_str();
        let cr = self.config.cert_resolver.as_str();
        let url = self.config.service_url.as_str();
        let mut s = String::from_str(
            "http:\n  routers:\n    zo-tunnel-dashboard:\n      rule: \"Host(`dashboard.",
        );
        s.append(domain);
        s.append("`)\"\n      entryPoints:\n        - \"");
        s.append(ep);
        s.append("\"\n      service: ");
        s.append(SHARED_SERVICE);
        s.append("\n      tls:\n        certResolver: ");
        s.append(cr);
        s.append("\n    zo-tunnel-apex:\n      rule: \"Host(`");
        s.append(domain);
        s.append("`)\"\n      entryPoints:\n        - \"");
        s.append(ep);
        s.append("\"\n      service: ");
        s.append(SHARED_SERVICE);
        s.append("\n      tls:\n        certResolver: ");
        s.append(cr);
        s.append("\n  services:\n    ");
        s.append(SHARED_SERVICE);
        s.append(":\n      loadBalancer:\n        servers:\n          - url: \"");
        s.append(url);
        s.append("\"\n");
        s
    }

    /// The route file of a client: its path and its text. The router is
    /// named after the sanitized id; the host rule uses the id as given.
    pub fn client_route(&self, client_id: &str) -> (r: (String, String))
        ensures
            r.0@ == path_join(
                self.config.config_dir@,
                "zo-tunnel-"@ + sanitized(client_id@) + ".yml"@,
            ),
            r.1@ == client_route_text(
                sanitized(client_id@),
                client_id@ + "."@ + self.domain@,
                self.config.entrypoint@,
                self.config.cert_resolver@,
            ),
    {
        let safe = sanitize_id(client_id);
        let mut host = String::from_str(client_id);
        host.append(".");
        host.append(self.domain.as_str());
        let mut s = String::from_str("http:\n  routers:\n    zo-tunnel-");
        s.append(safe.as_str());
        s.append(":\n      rule: \"Host(`");
        s.append(host.as_str());
        s.append("`)\"\n      entryPoints:\n        - \"");
        s.append(self.config.entrypoint.as_str());
        s.append("\"\n      service: ");
        s.append(SHARED_SERVICE);
        s.append("\n      tls:\n        certResolver: ");
        s.append(self.config.cert_resolver.as_str());
        s.append("\n");
        (self.client_file(safe.as_str()), s)
    }

    /// The path of the route file for a sanitized id.
    pub fn client_file(&self, safe_id: &str) -> (r: String)
        ensures
            r@ == path_join(self.config.config_dir@, "zo-tunnel-"@ + safe_id@ + ".yml"@),
    {
        let mut name = String::from_str("zo-tunnel-");
        name.append(safe_id);
        name.append(".yml");
        join_path(self.config.config_dir.as_str(), name.as_str())
    }
}

/// A sanitized id has the same length, holds only safe characters, keeps
/// every safe character in place, and sanitizing it again changes nothing.
pub proof fn lemma_sanitize_properties(id: Seq<char>)
    ensures
        sanitized(id).len() == id.len(),
        forall|i: int| 0 <= i < id.len() ==> is_safe_id_char(#[trigger] sanitized(id)[i]),
        forall|i: int| 0 <= i < id.len() && is_safe_id_char(id[i]) ==> #[trigger] sanitized(id)[i]
            == id[i],
        sanitized(sanitized(id)) == sanitized(id),
{
    assert(sanitized(sanitized(id)) =~= sanitized(id));
}

/// The file name of a client's route.
pub open spec fn client_route_file_name(client_id: Seq<char>) -> Seq<char> {
    "zo-tunnel-"@ + sanitized(client_id) + ".yml"@
}

/// Cleaning up the dynamic directory removes the route file of every client
/// other than one named `dashboard` (a reserved name, so never a client), and
/// keeps the base file.
pub proof fn lemma_cleanup_removes_client_routes(client_id: Seq<char>)
    requires
        client_id != "dashboard"@,
    ensures
        is_stale_route_file(client_route_file_name(client_id)),
        !is_stale_route_file(BASE_FILE@),
{
    reveal_strlit("zo-tunnel-");
    reveal_strlit(".yml");
    reveal_strlit("zo-tunnel-dashboard.yml");
    reveal_strlit("dashboard");
    reveal_strlit("_zo-tunnel-base.yml");
    reveal_strlit("zo-");
    let safe = sanitized(client_id);
    let name = client_route_file_name(client_id);
    assert(name.take(10) =~= "zo-tunnel-"@);
    assert(name.skip(name.len() - 4) =~= ".yml"@);
    assert(name[0] == 'z');
    assert(BASE_FILE@[0] == '_');
    if name == "zo-tunnel-dashboard.yml"@ {
        assert(safe =~= name.subrange(10, name.len() - 4));
        assert(safe =~= "dashboard"@);
        lemma_sanitize_properties(client_id);
        assert forall|i: int| 0 <= i < client_id.len() implies client_id[i] == safe[i] by {
            if !is_safe_id_char(client_id[i]) {
                assert(safe[i] == '_');
            }
        }
        assert(client_id =~= "dashboard"@);
    }
    assert(!starts_with(BASE_FILE@, "zo-tunnel-"@));
    assert(BASE_FILE@.take(3)[0] != "zo-"@[0]);
    assert(!starts_with(BASE_FILE@, "zo-"@));
}

} // verus!
