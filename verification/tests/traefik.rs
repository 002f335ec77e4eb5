use zo_tunnel::traefik::{is_stale_route_file_exec, sanitize_id, TraefikConfig, TraefikManager};

#[test]
fn sanitize_keeps_safe_chars() {
    assert_eq!(sanitize_id("my-api_1"), "my-api_1");
    assert_eq!(sanitize_id("bad/name"), "bad_name");
}

#[test]
fn sanitize_replaces_each_unsafe_char() {
    assert_eq!(sanitize_id("a.b c/é"), "a_b_c__");
    assert_eq!(sanitize_id(""), "");
}

#[test]
fn auto_detect_prefers_dynamic_dir() {
    let c = TraefikConfig::auto_detect(true, true);
    assert!(c.enabled);
    assert_eq!(c.config_dir, "/etc/traefik/dynamic");
    let c = TraefikConfig::auto_detect(false, false);
    assert!(!c.enabled);
    assert_eq!(c.entrypoint, "websecure");
}

#[test]
fn route_files() {
    let m = TraefikManager::new(TraefikConfig::default(), "tunnel.example.com".into());
    let (path, text) = m.client_route("my.app");
    assert_eq!(path, "/etc/traefik/dynamic/zo-tunnel-my_app.yml");
    assert_eq!(
        text,
        "http:\n  routers:\n    zo-tunnel-my_app:\n      rule: \"Host(`my.app.tunnel.example.com`)\"\n      entryPoints:\n        - \"websecure\"\n      service: zo-tunnel-server\n      tls:\n        certResolver: letsencrypt\n"
    );
    assert_eq!(m.base_file(), "/etc/traefik/dynamic/_zo-tunnel-base.yml");
    let s = m.static_routes();
    assert!(s.contains("rule: \"Host(`dashboard.tunnel.example.com`)\""));
    assert!(s.contains("rule: \"Host(`tunnel.example.com`)\""));
    assert!(s.ends_with("          - url: \"http://127.0.0.1:6210\"\n"));
}

#[test]
fn stale_route_files() {
    assert!(is_stale_route_file_exec("zo-tunnel-my-app.yml"));
    assert!(is_stale_route_file_exec("zo-old.yml"));
    assert!(!is_stale_route_file_exec("_zo-tunnel-base.yml"));
    assert!(!is_stale_route_file_exec("zo-tunnel-dashboard.yml"));
    assert!(!is_stale_route_file_exec("zo-static.yml"));
    assert!(!is_stale_route_file_exec("zo-tunnel-x.yaml"));
    assert!(!is_stale_route_file_exec("other.yml"));
}

#[test]
fn cleanup_covers_every_client_route() {
    let m = TraefikManager::new(TraefikConfig::default(), "tunnel.example.com".into());
    for id in ["my-app", "a.b", "tunnel-0a1b2c3d", "x y"] {
        let (path, _) = m.client_route(id);
        let name = path.rsplit('/').next().unwrap();
        assert!(is_stale_route_file_exec(name), "{}", name);
        assert_eq!(path, m.client_file(&sanitize_id(id)));
    }
    assert!(!is_stale_route_file_exec("_zo-tunnel-base.yml"));
}
