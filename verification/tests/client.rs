use zo_tunnel::client::{
    config_path, find_forwarding, generate_name, log_path, normalize_local_addr, parse_pid,
    pid_file_stem, pid_path, sort_by_name, tunnel_name, tunnels_dir, ClientTlsConfig, Reconnect,
    ReconnectAction, ZotunnelConfig,
};
use zo_tunnel::client::{detach_wait_step, DetachWait};

fn cfg(token: &str) -> ZotunnelConfig {
    ZotunnelConfig { server: "h:6200".into(), token: token.into(), tls: ClientTlsConfig::default() }
}

#[test]
fn masked_tokens() {
    assert_eq!(cfg("abcd").masked_token(), "****");
    assert_eq!(cfg("").masked_token(), "****");
    assert_eq!(cfg("abcdef").masked_token(), "abcd****");
    assert_eq!(cfg("éabcd").masked_token(), "éab****");
}

#[test]
fn local_addresses() {
    assert_eq!(normalize_local_addr("3000"), "localhost:3000");
    assert_eq!(normalize_local_addr("127.0.0.1:8080"), "127.0.0.1:8080");
}

#[test]
fn random_names() {
    let n = generate_name().unwrap();
    assert!(n.starts_with("tunnel-"));
    assert_eq!(n.len(), 15);
    assert!(n["tunnel-".len()..].chars().all(|c| c.is_ascii_digit() || ('a'..='f').contains(&c)));
    assert_ne!(generate_name().unwrap(), generate_name().unwrap());
}

#[test]
fn client_paths() {
    assert_eq!(config_path(Some("/home/u")).unwrap(), "/home/u/.zotunnel/config.yaml");
    assert_eq!(config_path(None), None);
    let dir = tunnels_dir(Some("/home/u")).unwrap();
    assert_eq!(dir, "/home/u/.zotunnel/tunnels");
    assert_eq!(pid_path(&dir, "app"), "/home/u/.zotunnel/tunnels/app.pid");
    assert_eq!(log_path(&dir, "app"), "/home/u/.zotunnel/tunnels/app.log");
    assert_eq!(pid_file_stem("app.pid"), Some("app".to_string()));
    assert_eq!(pid_file_stem("app.log"), None);
}

#[test]
fn pid_files() {
    assert_eq!(parse_pid("1234\n"), Some(1234));
    assert_eq!(parse_pid("0"), None);
    assert_eq!(parse_pid("garbage"), None);
    assert_eq!(parse_pid(""), None);
}

#[test]
fn forwarding_line() {
    let log = "zotunnel v0.0.2\nConnecting...\r\n\nForwarding  https://a.example.com -> http://localhost:3000\r\nmore\n";
    assert_eq!(
        find_forwarding(log),
        Some("https://a.example.com -> http://localhost:3000".to_string())
    );
    assert_eq!(find_forwarding("Connecting...\n"), None);
    assert_eq!(find_forwarding("Forwarding x"), None);
    assert_eq!(find_forwarding("Forwarding  tail\r"), Some("tail\r".to_string()));
}

#[test]
fn reconnect_backoff() {
    let mut r = Reconnect::new();
    let mut waits = Vec::new();
    for _ in 0..7 {
        match r.session_ended(false) {
            ReconnectAction::Retry { wait_secs } => waits.push(wait_secs),
            ReconnectAction::Stop => panic!("not cancelled"),
        }
    }
    assert_eq!(waits, vec![1, 2, 4, 8, 16, 30, 30]);
    assert_eq!(r.session_ended(true), ReconnectAction::Stop);
}

#[test]
fn running_tunnels_sorted() {
    let v = vec![("web".to_string(), 3), ("api".to_string(), 1), ("db".to_string(), 2)];
    let s = sort_by_name(v);
    let names: Vec<&str> = s.iter().map(|(n, _)| n.as_str()).collect();
    assert_eq!(names, vec!["api", "db", "web"]);
    assert_eq!(s[0].1, 1);
}

#[test]
fn tunnel_names_from_hex() {
    assert_eq!(tunnel_name("0a1b2c3d"), "tunnel-0a1b2c3d");
    assert_eq!(tunnel_name(""), "tunnel-");
}

#[test]
fn detach_wait_steps() {
    let log = "zotunnel v0.0.2\nForwarding  https://a.example.com -> http://localhost:3000\n";
    assert_eq!(detach_wait_step(15_000, 15_000, true, log), DetachWait::TimedOut);
    assert_eq!(detach_wait_step(100, 15_000, false, log), DetachWait::Exited);
    assert_eq!(detach_wait_step(100, 15_000, true, "Connecting...\n"), DetachWait::KeepWaiting);
    assert_eq!(
        detach_wait_step(100, 15_000, true, log),
        DetachWait::Connected {
            forwarding: "https://a.example.com -> http://localhost:3000".to_string()
        }
    );
}

#[test]
fn reconnect_starts_at_one_second() {
    let mut r = Reconnect::new();
    assert_eq!(r.backoff_secs(), 1);
    r.session_ended(false);
    assert_eq!(r.backoff_secs(), 2);
    r.session_ended(true);
    assert_eq!(r.backoff_secs(), 2);
}
