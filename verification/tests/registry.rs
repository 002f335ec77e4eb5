use zo_tunnel::registry::{Registry, RegistryError};

#[test]
fn register_get_unregister() {
    let mut r = Registry::new();
    assert_eq!(r.count(), 0);
    let e = r.register("my-app".into(), 7, true, 1_000).unwrap();
    assert_eq!(e.client_id, "my-app");
    assert_eq!(e.handle, 7);
    assert!(e.supports_heartbeat);
    assert_eq!(r.count(), 1);
    assert_eq!(r.get("my-app").unwrap().connected_at_ms, 1_000);
    assert!(r.get("other").is_none());
    assert_eq!(
        r.register("my-app".into(), 8, false, 2_000).unwrap_err(),
        RegistryError::AlreadyRegistered
    );
    assert_eq!(r.get("my-app").unwrap().handle, 7);
    r.unregister("my-app");
    assert!(r.get("my-app").is_none());
    assert_eq!(r.count(), 0);
    assert!(r.register("my-app".into(), 9, false, 3_000).is_ok());
}

#[test]
fn reserved_ids_are_refused() {
    let mut r = Registry::new();
    assert_eq!(r.register("dashboard".into(), 1, true, 0).unwrap_err(), RegistryError::Reserved);
    assert_eq!(r.count(), 0);
}

#[test]
fn list_reports_every_client_once() {
    let mut r = Registry::new();
    r.register("a".into(), 1, true, 0).unwrap();
    r.register("b".into(), 2, true, 10_000).unwrap();
    let mut infos = r.list(12_500);
    infos.sort_by(|x, y| x.client_id.cmp(&y.client_id));
    assert_eq!(infos.len(), 2);
    assert_eq!(infos[0].client_id, "a");
    assert_eq!(infos[0].connected_at_secs, 12);
    assert_eq!(infos[1].client_id, "b");
    assert_eq!(infos[1].connected_at_secs, 2);
    assert_eq!(infos[1].total_requests, 0);
}

#[test]
fn traffic_is_counted() {
    let mut r = Registry::new();
    r.register("a".into(), 1, true, 0).unwrap();
    assert!(r.add_traffic("a", 100, 40, 1));
    assert!(r.add_traffic("a", 5, 0, 2));
    assert!(r.stream_changed("a", true));
    assert!(r.stream_changed("a", true));
    assert!(r.stream_changed("a", false));
    let e = r.get("a").unwrap();
    assert_eq!(e.metrics.bytes_in, 105);
    assert_eq!(e.metrics.bytes_out, 40);
    assert_eq!(e.metrics.requests, 3);
    assert_eq!(e.metrics.active_streams, 1);
    assert_eq!(e.handle, 1);
    assert_eq!(e.client_id, "a");
    assert!(!r.add_traffic("missing", 1, 1, 1));
    assert!(!r.stream_changed("missing", true));
    let info = r.list(0);
    assert_eq!(info[0].total_requests, 3);
    // Counters wrap around like atomic adds.
    r.add_traffic("a", u64::MAX, 0, 0);
    assert_eq!(r.get("a").unwrap().metrics.bytes_in, 104);
}
