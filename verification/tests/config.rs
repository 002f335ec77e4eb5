use zo_tunnel::config::{
    apply_env_overrides, build_config, dirs_fallback, first_run_config_text, is_reserved_subdomain,
    saved_config_text, should_load_config, EnvOverrides,
    ServerConfig,
};
use zo_tunnel::traefik::TraefikConfig;

#[test]
fn test_default_config() {
    let cfg = ServerConfig::default();
    assert_eq!(cfg.control_port, 6200);
    assert_eq!(cfg.public_port, 6210);
    assert!(cfg.domain.is_empty());
    assert!(cfg.auth.tokens.is_empty());
    assert!(cfg.dashboard_auth.token.is_empty());
    assert_eq!(cfg.dashboard_auth.session_ttl_secs, 86400);
}

#[test]
fn test_validate_token_empty_allows_all() {
    let cfg = ServerConfig::default();
    assert!(cfg.validate_token("anything"));
    assert!(cfg.validate_token(""));
}

#[test]
fn test_validate_token_checks_list() {
    let mut cfg = ServerConfig::default();
    cfg.auth.tokens = vec!["secret1".into(), "secret2".into()];

    assert!(cfg.validate_token("secret1"));
    assert!(cfg.validate_token("secret2"));
    assert!(!cfg.validate_token("wrong"));
    assert!(!cfg.validate_token(""));
}

#[test]
fn test_dashboard_auth_disabled_by_default() {
    let cfg = ServerConfig::default();
    assert!(!cfg.dashboard_auth_enabled());
    assert!(cfg.validate_dashboard_token("anything"));
}

#[test]
fn test_dashboard_auth_validates_token() {
    let mut cfg = ServerConfig::default();
    cfg.dashboard_auth.token = "super-secret-admin".into();
    assert!(cfg.dashboard_auth_enabled());
    assert!(cfg.validate_dashboard_token("super-secret-admin"));
    assert!(!cfg.validate_dashboard_token("wrong-token"));
    assert!(!cfg.validate_dashboard_token(""));
    assert!(!cfg.validate_dashboard_token("super-secret-admin-extra"));
    assert!(!cfg.validate_dashboard_token("super"));
}

#[test]
fn default_config_details() {
    let cfg = ServerConfig::default();
    assert_eq!(cfg.log_level, "info");
    assert_eq!(cfg.clients_dir, "/var/lib/zo-tunnel/clients");
    assert_eq!(cfg.rate_limit.requests_per_second, 100);
    assert_eq!(cfg.rate_limit.max_connections_per_client, 50);
    assert!(!cfg.traefik.enabled);
    assert_eq!(cfg.traefik.config_dir, "/etc/traefik/dynamic");
    assert_eq!(cfg.traefik.entrypoint, "websecure");
    assert_eq!(cfg.traefik.cert_resolver, "letsencrypt");
    assert_eq!(cfg.traefik.service_url, "http://127.0.0.1:6210");
}

#[test]
fn reserved_subdomains() {
    for id in ["dashboard", "connect", "api", "www", "admin", "install", "download"] {
        assert!(is_reserved_subdomain(id));
    }
    assert!(!is_reserved_subdomain("my-app"));
    assert!(!is_reserved_subdomain("Dashboard"));
}

#[test]
fn config_locations() {
    assert_eq!(ServerConfig::config_dir(true, "/home/u/.config"), "/etc/zo-tunnel");
    assert_eq!(ServerConfig::config_dir(false, "/home/u/.config"), "/home/u/.config/zo-tunnel");
    assert_eq!(
        ServerConfig::config_path("/etc/zo-tunnel"),
        "/etc/zo-tunnel/server.yaml"
    );
    assert_eq!(dirs_fallback(Some("/xdg"), Some("/home/u")), "/xdg");
    assert_eq!(dirs_fallback(None, Some("/home/u")), "/home/u/.config");
    assert_eq!(dirs_fallback(None, None), "/tmp/.config");
    assert_eq!(
        ServerConfig::resolve_config_path("/xdg", true, true).unwrap(),
        "/etc/zo-tunnel/server.yaml"
    );
    assert_eq!(
        ServerConfig::resolve_config_path("/xdg", false, true).unwrap(),
        "/xdg/zo-tunnel/server.yaml"
    );
    assert_eq!(ServerConfig::resolve_config_path("/xdg", false, false), None);
}

#[test]
fn generated_tokens_are_hex() {
    let t = ServerConfig::generate_token(24).unwrap();
    assert_eq!(t.len(), 48);
    assert!(t.chars().all(|c| c.is_ascii_hexdigit() && !c.is_ascii_uppercase()));
    assert_eq!(ServerConfig::generate_token(0).unwrap(), "");
}

#[test]
fn build_config_keeps_given_tokens() {
    let cfg = build_config(
        "tunnel.example.com",
        7000,
        7010,
        Some("client-tok"),
        Some("dash-tok"),
        TraefikConfig::auto_detect(false, true),
    )
    .unwrap();
    assert_eq!(cfg.domain, "tunnel.example.com");
    assert_eq!(cfg.control_port, 7000);
    assert_eq!(cfg.public_port, 7010);
    assert_eq!(cfg.auth.tokens, vec!["client-tok".to_string()]);
    assert_eq!(cfg.dashboard_auth.token, "dash-tok");
    assert!(cfg.traefik.enabled);
    assert_eq!(cfg.traefik.config_dir, "/etc/traefik/conf.d");
}

#[test]
fn build_config_generates_missing_tokens() {
    let cfg = build_config("d", 1, 2, Some(""), None, TraefikConfig::default()).unwrap();
    assert_eq!(cfg.auth.tokens.len(), 1);
    assert_eq!(cfg.auth.tokens[0].len(), 48);
    assert_eq!(cfg.dashboard_auth.token.len(), 32);
}

#[test]
fn env_overrides() {
    let mut cfg = ServerConfig::default();
    cfg.auth.tokens = vec!["old".into()];
    cfg.dashboard_auth.token = "old-dash".into();
    let env = EnvOverrides {
        traefik_config_dir: Some("/srv/traefik".into()),
        traefik_service_url: Some("http://10.0.0.1:6210".into()),
        traefik_enabled: None,
        clients_dir: Some("/srv/clients".into()),
        token: Some("".into()),
        dashboard_token: Some("new-dash".into()),
    };
    apply_env_overrides(&mut cfg, &env);
    assert!(cfg.traefik.enabled);
    assert_eq!(cfg.traefik.config_dir, "/srv/traefik");
    assert_eq!(cfg.traefik.service_url, "http://10.0.0.1:6210");
    assert_eq!(cfg.clients_dir, "/srv/clients");
    assert_eq!(cfg.auth.tokens, vec!["old".to_string()]);
    assert_eq!(cfg.dashboard_auth.token, "new-dash");

    let mut cfg = ServerConfig::default();
    let env = EnvOverrides {
        traefik_config_dir: None,
        traefik_service_url: None,
        traefik_enabled: Some("TRUE".into()),
        clients_dir: None,
        token: Some("tok".into()),
        dashboard_token: None,
    };
    apply_env_overrides(&mut cfg, &env);
    assert!(!cfg.traefik.enabled);
    assert_eq!(cfg.auth.tokens, vec!["tok".to_string()]);
    let env = EnvOverrides {
        traefik_config_dir: None,
        traefik_service_url: None,
        traefik_enabled: Some("true".into()),
        clients_dir: None,
        token: None,
        dashboard_token: None,
    };
    apply_env_overrides(&mut cfg, &env);
    assert!(cfg.traefik.enabled);
    assert_eq!(cfg.traefik.config_dir, "/etc/traefik/dynamic");
}

#[test]
fn config_file_texts() {
    assert!(should_load_config(true, false));
    assert!(!should_load_config(true, true));
    assert!(!should_load_config(false, false));
    assert_eq!(
        first_run_config_text("/etc/zo-tunnel/server.yaml", "domain: a\n"),
        "# Zo Tunnel Server Configuration\n# Config path: /etc/zo-tunnel/server.yaml\n\ndomain: a\n"
    );
    let t = saved_config_text("/p.yaml", "x: 1\n");
    assert!(t.starts_with("# Zo Tunnel Server Configuration\n# Generated by: zo-tunnel-server start --domain\n# Config path: /p.yaml\n#\n"));
    assert!(t.ends_with("--force\n\nx: 1\n"));
}
