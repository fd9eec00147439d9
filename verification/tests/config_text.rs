use confroom_server::config::{
    effective_max_workers, get_tls_mode_settings, webrtc_listen_plan, ListenAddress,
    RouterDispatchConfig, SFUServerConfig,
};
use confroom_server::text::parse_i32;

#[test]
fn parse_i32_reads_signed_decimals_exactly() {
    assert_eq!(parse_i32("0"), Some(0));
    assert_eq!(parse_i32("1"), Some(1));
    assert_eq!(parse_i32("-1"), Some(-1));
    assert_eq!(parse_i32("+42"), Some(42));
    assert_eq!(parse_i32("2147483647"), Some(i32::MAX));
    assert_eq!(parse_i32("-2147483648"), Some(i32::MIN));
    assert_eq!(parse_i32("2147483648"), None);
    assert_eq!(parse_i32("-2147483649"), None);
    assert_eq!(parse_i32(""), None);
    assert_eq!(parse_i32("-"), None);
    assert_eq!(parse_i32("12a"), None);
    assert_eq!(parse_i32(" 1"), None);
    assert_eq!(parse_i32("99999999999999999999"), None);
}

#[test]
fn tls_runs_only_with_positive_mode_and_both_paths() {
    let s = |v: &str| Some(v.to_string());
    let settings = get_tls_mode_settings(s("1"), s("/cert"), s("/key")).unwrap();
    assert_eq!(settings.cert_path, "/cert");
    assert_eq!(settings.key_path, "/key");
    assert!(get_tls_mode_settings(s("0"), s("/cert"), s("/key")).is_none());
    assert!(get_tls_mode_settings(s("-3"), s("/cert"), s("/key")).is_none());
    assert!(get_tls_mode_settings(s("yes"), s("/cert"), s("/key")).is_none());
    assert!(get_tls_mode_settings(None, s("/cert"), s("/key")).is_none());
    assert!(get_tls_mode_settings(s("2"), None, s("/key")).is_none());
    assert!(get_tls_mode_settings(s("2"), s("/cert"), None).is_none());
}

#[test]
fn worker_bound_clamps_to_the_cpu_count() {
    assert_eq!(effective_max_workers(0, 8), 8);
    assert_eq!(effective_max_workers(3, 8), 3);
    assert_eq!(effective_max_workers(9, 8), 8);
    assert_eq!(effective_max_workers(8, 8), 8);
}

#[test]
fn the_listen_plan_follows_the_public_address() {
    let public = webrtc_listen_plan(Some("203.0.113.5".to_string()));
    assert_eq!(public.address, ListenAddress::Unspecified);
    assert_eq!(public.announced_address.as_deref(), Some("203.0.113.5"));
    let local = webrtc_listen_plan(None);
    assert_eq!(local.address, ListenAddress::Localhost);
    assert!(local.announced_address.is_none());
}

#[test]
fn defaults_match_the_documented_configuration() {
    let d = RouterDispatchConfig::default();
    assert_eq!(d.max_workers, 1);
    assert_eq!(d.consumers_per_worker, 500);
    let s = SFUServerConfig::default();
    assert_eq!(s.port, 8000);
    assert!(s.router_dispatch_config.is_none());
    assert_eq!(confroom_server::monitoring::SFU_PORT, 12346);
}

#[test]
fn fresh_identifiers_are_minted() {
    // Nothing is promised of a random identifier's value; two mints are at
    // least overwhelmingly unlikely to collide.
    let a = confroom_server::uuids::RoomId::new();
    let b = confroom_server::uuids::RoomId::new();
    let c = confroom_server::uuids::ParticipantId::new();
    let d = confroom_server::uuids::MonitorId::new();
    assert!(a != b);
    let _ = (c, d);
}
