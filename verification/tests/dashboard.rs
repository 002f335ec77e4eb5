use zo_tunnel::dashboard::{
    build_clear_cookie, build_session_cookie, content_disposition, dashboard_login,
    dashboard_logout, download_archive_name, extract_session_id, install_script, is_authenticated,
    is_tls_enabled, is_valid_download_name, login_reply, status_commands, SessionStore,
};

#[test]
fn session_lifecycle() {
    let mut s = SessionStore::new(2);
    let id = s.create(0).unwrap();
    assert!(s.validate(&id, 1_999));
    assert!(!s.validate(&id, 2_000));
    // expired sessions are forgotten
    assert!(!s.validate(&id, 0));
    let id2 = s.create(10).unwrap();
    s.invalidate(&id2);
    assert!(!s.validate(&id2, 10));
}

#[test]
fn cookie_parsing() {
    assert_eq!(extract_session_id(Some("zo-session=abc")), Some("abc".to_string()));
    assert_eq!(extract_session_id(Some("a=1; zo-session=abc ; b=2")), Some("abc".to_string()));
    assert_eq!(extract_session_id(Some("zo-session=; zo-session=def")), Some("def".to_string()));
    assert_eq!(extract_session_id(Some("zo-sessionX=1; zo-session=abc")), None);
    assert_eq!(extract_session_id(Some("other=1")), None);
    assert_eq!(extract_session_id(None), None);
}

#[test]
fn cookies_built() {
    assert_eq!(
        build_session_cookie("abc", 86400, false),
        "zo-session=abc; Path=/; HttpOnly; SameSite=Strict; Max-Age=86400"
    );
    assert_eq!(
        build_session_cookie("abc", 0, true),
        "zo-session=abc; Path=/; HttpOnly; SameSite=Strict; Max-Age=0; Secure"
    );
    assert_eq!(build_clear_cookie(), "zo-session=; Path=/; HttpOnly; SameSite=Strict; Max-Age=0");
}

#[test]
fn tls_detection() {
    assert!(is_tls_enabled(true, None));
    assert!(is_tls_enabled(false, Some(" HTTPS ")));
    assert!(!is_tls_enabled(false, Some("http")));
    assert!(!is_tls_enabled(false, None));
}

#[test]
fn login_flow() {
    let mut s = SessionStore::new(3600);
    let open = dashboard_login(false, "", false, None, None, "x", &mut s, 0);
    assert_eq!(open.status, 200);
    assert!(open.success);
    assert_eq!(open.message, "Authentication not required");

    let bad = dashboard_login(true, "admin", false, None, None, "wrong", &mut s, 0);
    assert_eq!(bad.status, 401);
    assert!(!bad.success);
    assert!(bad.set_cookie.is_none());
    assert_eq!(bad.message, "Invalid admin token");

    let good = dashboard_login(true, "admin", false, Some("https"), None, "admin", &mut s, 0);
    assert_eq!(good.status, 200);
    assert_eq!(good.message, "Login successful");
    let cookie = good.set_cookie.unwrap();
    assert!(cookie.ends_with("; Max-Age=3600; Secure"));
    let id = cookie.trim_start_matches("zo-session=").split(';').next().unwrap().to_string();
    let header = format!("zo-session={}", id);
    assert!(is_authenticated(true, &mut s, Some(&header), 1_000));

    let again = dashboard_login(true, "admin", false, None, Some(&header), "wrong", &mut s, 1_000);
    assert_eq!(again.message, "Already authenticated");

    let clear = dashboard_logout(&mut s, Some(&header));
    assert_eq!(clear, "zo-session=; Path=/; HttpOnly; SameSite=Strict; Max-Age=0");
    assert!(!is_authenticated(true, &mut s, Some(&header), 1_000));
    assert!(is_authenticated(false, &mut s, None, 1_000));
}

#[test]
fn status_and_install() {
    let c = status_commands("tunnel.example.com", 6200, "tok");
    assert_eq!(c.install_url, "https://dashboard.tunnel.example.com/install");
    assert_eq!(c.install_command, "curl -sSL https://dashboard.tunnel.example.com/install | bash");
    assert_eq!(c.config_command, "zotunnel config set --server tunnel.example.com:6200 --token tok");
    assert_eq!(c.example_command, "zotunnel http 3000 --name my-app -d");
    let script = install_script("tunnel.example.com", 6200);
    assert!(script.starts_with("#!/usr/bin/env bash\nset -euo pipefail\n\nDOMAIN=\"tunnel.example.com\"\nCONTROL_PORT=\"6200\"\nBASE=\"https://dashboard.${DOMAIN}\"\n"));
    assert!(script.contains("install_from_source() {\n"));
    assert!(script.ends_with("echo \"  zotunnel http 3000\"\n"));
}

#[test]
fn download_names() {
    assert!(is_valid_download_name("zotunnel-linux-amd64"));
    assert!(is_valid_download_name("zotunnel-src.tar.gz"));
    assert!(!is_valid_download_name("../etc/passwd"));
    assert!(!is_valid_download_name("a..b"));
    assert!(!is_valid_download_name("a/b"));
    assert_eq!(download_archive_name("zotunnel-linux-amd64"), "zotunnel-linux-amd64.tar.gz");
    assert_eq!(content_disposition("x.tar.gz"), "attachment; filename=\"x.tar.gz\"");
}

#[test]
fn session_ids_are_v4_uuids() {
    let mut s = SessionStore::new(60);
    let id = s.create(0).unwrap();
    assert_eq!(id.len(), 36);
    for (i, c) in id.chars().enumerate() {
        if i == 8 || i == 13 || i == 18 || i == 23 {
            assert_eq!(c, '-');
        } else {
            assert!(c.is_ascii_digit() || ('a'..='f').contains(&c));
        }
    }
    assert_eq!(id.as_bytes()[14], b'4');
    assert_ne!(id, s.create(0).unwrap());
}

#[test]
fn login_replies() {
    let ok = login_reply(Some("abc"), 60, true);
    assert_eq!(ok.status, 200);
    assert!(ok.success);
    assert_eq!(ok.message, "Login successful");
    assert_eq!(
        ok.set_cookie.as_deref(),
        Some("zo-session=abc; Path=/; HttpOnly; SameSite=Strict; Max-Age=60; Secure")
    );
    let failed = login_reply(None, 60, true);
    assert_eq!(failed.status, 500);
    assert!(!failed.success);
    assert_eq!(failed.set_cookie, None);
}

#[test]
fn started_session_validates() {
    let mut s = SessionStore::new(5);
    s.start_session("given-id".to_string(), 1_000);
    assert!(s.validate("given-id", 5_999));
    assert!(!s.validate("given-id", 6_000));
    assert!(!s.validate("given-id", 1_000));
}
