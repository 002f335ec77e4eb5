use zo_tunnel::release::{
    client_install_dir, detect_install_dir, detect_target, is_confirmation, is_newer,
    is_server_binary, latest_release_api_url, parse_release_tag, parse_u32_exec,
    release_download_url, release_tarball, systemd_unit_content, uninstall_plan, version_triple_exec,
    Component, TargetError,
};

#[test]
fn test_is_newer() {
    assert!(is_newer("0.4.1", "v0.5.0"));
    assert!(is_newer("0.4.1", "v0.4.2"));
    assert!(is_newer("0.4.1", "v1.0.0"));
    assert!(!is_newer("0.4.1", "v0.4.1"));
    assert!(!is_newer("0.5.0", "v0.4.1"));
    assert!(!is_newer("1.0.0", "v0.9.9"));
}

#[test]
fn test_is_newer_with_v_prefix() {
    assert!(is_newer("v0.4.1", "v0.5.0"));
    assert!(!is_newer("v0.5.0", "v0.4.1"));
    assert!(!is_newer("v0.4.1", "v0.4.1"));
}

#[test]
fn test_detect_target() {
    // The platform this suite runs on is a 64-bit Linux machine.
    let target = detect_target("linux", "x86_64");
    assert!(target.is_ok());
    let t = target.unwrap();
    assert!(
        t == "linux-amd64" || t == "linux-arm64" || t == "darwin-amd64" || t == "darwin-arm64"
    );
}

#[test]
fn unsupported_targets() {
    assert_eq!(detect_target("macos", "aarch64").unwrap(), "darwin-arm64");
    assert_eq!(detect_target("windows", "x86_64"), Err(TargetError::UnsupportedOs));
    assert_eq!(detect_target("windows", "mips"), Err(TargetError::UnsupportedOs));
    assert_eq!(detect_target("linux", "mips"), Err(TargetError::UnsupportedArch));
}

#[test]
fn version_parsing_edges() {
    assert_eq!(version_triple_exec("v1.2.3"), (1, 2, 3));
    assert_eq!(version_triple_exec("1.2"), (1, 2, 0));
    assert_eq!(version_triple_exec("1.x.3"), (1, 3, 0));
    assert_eq!(version_triple_exec("vv1.2.3"), (2, 3, 0));
    assert_eq!(version_triple_exec("+7.0.1-beta"), (7, 0, 0));
    assert_eq!(version_triple_exec(""), (0, 0, 0));
    assert_eq!(version_triple_exec("4294967296.1.2"), (1, 2, 0));
    assert!(!is_newer("1.0.0", "1.0"));
}

#[test]
fn u32_parsing_follows_std() {
    for s in ["0", "42", "+42", "007", "4294967295", "4294967296", "+", "", "-1", " 1", "1a", "١"] {
        let cs: Vec<char> = s.chars().collect();
        assert_eq!(parse_u32_exec(&cs), s.parse::<u32>().ok(), "input {:?}", s);
    }
}

#[test]
fn release_tag_from_api_answer() {
    let body = r#"{"url":"x","tag_name": "v0.4.1","name":"v0.4.1"}"#;
    assert_eq!(parse_release_tag(body), Some("v0.4.1".to_string()));
    assert_eq!(parse_release_tag(r#"{"message":"Not Found"}"#), None);
    assert_eq!(parse_release_tag(r#"{"tag_name""#), None);
    assert_eq!(parse_release_tag(r#"{"tag_name": "#), None);
}

#[test]
fn release_asset_names() {
    let tarball = release_tarball("zotunnel", "v0.5.0", "linux-amd64");
    assert_eq!(tarball, "zotunnel-v0.5.0-linux-amd64.tar.gz");
    assert_eq!(
        release_download_url("v0.5.0", &tarball),
        "https://github.com/Zobite/zo-tunnel/releases/download/v0.5.0/zotunnel-v0.5.0-linux-amd64.tar.gz"
    );
    assert_eq!(
        latest_release_api_url(),
        "https://api.github.com/repos/Zobite/zo-tunnel/releases/latest"
    );
    assert!(is_server_binary("zo-tunnel-server"));
    assert!(!is_server_binary("zotunnel"));
}

#[test]
fn install_directories() {
    assert_eq!(client_install_dir(Some("/home/a")).unwrap(), "/home/a/.zotunnel/bin");
    assert_eq!(client_install_dir(Some("/home/a/")).unwrap(), "/home/a/.zotunnel/bin");
    assert_eq!(client_install_dir(None), None);
    assert_eq!(
        detect_install_dir("zotunnel", Some("/opt/bin"), Some("/home/a")).unwrap(),
        "/opt/bin"
    );
    assert_eq!(
        detect_install_dir("zotunnel", Some("/src/target"), Some("/home/a")).unwrap(),
        "/src/target"
    );
    assert_eq!(
        detect_install_dir("zotunnel", Some("/src/target/release/x"), Some("/home/a")).unwrap(),
        "/home/a/.zotunnel/bin"
    );
    assert_eq!(detect_install_dir("zo-tunnel-client", None, None), None);
    assert_eq!(detect_install_dir("zo-tunnel-server", None, None).unwrap(), "/usr/local/bin");
}

#[test]
fn systemd_unit() {
    let unit = systemd_unit_content("/usr/local/bin/zo-tunnel-server");
    assert!(unit.starts_with("[Unit]\nDescription=Zo Tunnel Server\n"));
    assert!(unit.contains("ExecStart=/usr/local/bin/zo-tunnel-server start --foreground\n"));
    assert!(unit.ends_with("WantedBy=multi-user.target\n"));
}

#[test]
fn uninstall_confirmation() {
    assert!(is_confirmation("y\n"));
    assert!(is_confirmation("  Y  "));
    assert!(!is_confirmation("yes"));
    assert!(!is_confirmation(""));
}

#[test]
fn uninstall_plans() {
    let p = uninstall_plan(Component::Server, false);
    assert!(p.remove_service && p.remove_system_config && !p.remove_client_dir);
    let p = uninstall_plan(Component::Server, true);
    assert!(p.remove_service && !p.remove_system_config && !p.remove_client_dir);
    let p = uninstall_plan(Component::Client, false);
    assert!(!p.remove_service && !p.remove_system_config && p.remove_client_dir);
    let p = uninstall_plan(Component::Client, true);
    assert!(!p.remove_service && !p.remove_system_config && !p.remove_client_dir);
}
