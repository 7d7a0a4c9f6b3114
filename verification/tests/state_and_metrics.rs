use bbr_injector::archive::{ArchiveDb, ArchiveRow, FieldVdf, InvalidFieldVdf};
use bbr_injector::config::{
    default_archive_busy_timeout_ms, default_http_listen_addr, default_in_flight_path, default_static_dir,
    default_tls_cert_path, default_tls_key_path, ArchiveConfig, Config, ConfigError, HttpConfig, InjectorConfig,
    PeersConfig, StorageConfig, TlsConfig,
};
use bbr_injector::in_flight::{InFlightState, SendMode};
use bbr_injector::metrics::{Counter, GaugeU64, Timer};

fn state(ppw: u32, window_ms: u64) -> InFlightState {
    InFlightState {
        cursor_event_id: 7,
        end_event_id: Some(9),
        proofs_per_window: ppw,
        window_ms,
        paused: false,
        send_mode: SendMode::RespondOnly,
    }
}

#[test]
fn apply_defaults_fills_zero_speed_from_defaults() {
    let d = state(3, 2000);
    let s = state(0, 0).apply_defaults(&d);
    assert_eq!(s.proofs_per_window, 3);
    assert_eq!(s.window_ms, 2000);
    assert_eq!(s.cursor_event_id, 7);
    assert_eq!(s.end_event_id, Some(9));
    assert_eq!(s.send_mode, SendMode::RespondOnly);
}

#[test]
fn apply_defaults_keeps_set_speed_and_clamps_zero_defaults() {
    let d = state(0, 0);
    let s = state(5, 0).apply_defaults(&d);
    assert_eq!(s.proofs_per_window, 5);
    assert_eq!(s.window_ms, 1);
}

#[test]
fn in_flight_setters() {
    let mut s = state(3, 2000);
    s.set_speed(0, 0);
    assert_eq!((s.proofs_per_window, s.window_ms), (1, 1));
    s.set_cursor_and_end(11, None);
    assert_eq!((s.cursor_event_id, s.end_event_id), (11, None));
    s.set_paused(true);
    assert!(s.paused);
    s.set_send_mode(SendMode::Announcement);
    assert_eq!(s.send_mode, SendMode::Announcement);
    s.set_cursor_event_id(4);
    assert_eq!(s.cursor_event_id, 4);
    assert_eq!(SendMode::default(), SendMode::Announcement);
}

#[test]
fn counter_wraps_and_adds() {
    let mut c = Counter::default();
    c.inc();
    c.add(41);
    assert_eq!(c.get(), 42);
    c.add(u64::MAX);
    assert_eq!(c.get(), 41);
}

#[test]
fn gauge_guard_restores_value() {
    let mut g = GaugeU64::default();
    g.inc();
    let guard = g.guard_inc();
    assert_eq!(g.get(), 2);
    guard.release(&mut g);
    assert_eq!(g.get(), 1);
    g.dec();
    g.dec();
    assert_eq!(g.get(), u64::MAX);
}

#[test]
fn timer_records_count_total_max() {
    let mut t = Timer::default();
    t.record(5);
    t.record(3);
    t.record(u128::MAX);
    assert_eq!(t.count(), 3);
    assert_eq!(t.max_ms(), u64::MAX);
    assert_eq!(t.total_ms(), 7); // 5 + 3 + u64::MAX wraps to 7
}

#[test]
fn field_vdf_numbers() {
    assert_eq!(FieldVdf::try_from(3), Ok(FieldVdf::CcSpVdf));
    assert_eq!(FieldVdf::try_from(0), Ok(FieldVdf::Unspecified));
    assert_eq!(FieldVdf::try_from(5), Err(InvalidFieldVdf { value: 5 }));
    assert_eq!(FieldVdf::try_from(-1), Err(InvalidFieldVdf { value: -1 }));
    assert_eq!(FieldVdf::CcIpVdf.code(), 4);
}

#[test]
fn archive_handle_and_rows() {
    let db = ArchiveDb::new(&ArchiveConfig { db_path: "a.sqlite".to_string(), busy_timeout_ms: 0 }).unwrap();
    assert_eq!(db.busy_timeout_ms, 1);
    assert_eq!(db.db_path, "a.sqlite");
    assert_eq!(ArchiveDb::read_limit(0), 1);
    assert_eq!(ArchiveDb::read_limit(5000), 5000);
    let row = ArchiveRow {
        event_id: -5,
        ts: 100,
        height: 0x1_0000_0002,
        header_hash: vec![1; 32],
        field_vdf: 0x1_0000_0003,
        vdf_challenge: vec![2; 32],
        vdf_iters: -1,
        vdf_output: vec![3; 100],
        respond_compact_vdf: vec![4, 5],
    };
    let resp = ArchiveDb::response_from_rows(-1, 10, vec![row]);
    assert_eq!(resp.first_event_id, 0);
    assert_eq!(resp.last_event_id, 10);
    let ev = &resp.events[0];
    assert_eq!(ev.event_id, 0);
    assert_eq!(ev.ts, 100);
    assert_eq!(ev.height, 2);
    assert_eq!(ev.field_vdf, 3);
    let vdf = ev.vdf_info.as_ref().unwrap();
    assert_eq!(vdf.number_of_iterations, 0);
    assert_eq!(vdf.output.len(), 100);
    assert_eq!(ev.respond_compact_vdf, vec![4, 5]);
}

fn config() -> Config {
    Config {
        network_id: "mainnet".to_string(),
        tls: TlsConfig::default(),
        archive: ArchiveConfig { db_path: "db.sqlite".to_string(), busy_timeout_ms: 500 },
        injector: InjectorConfig {
            default_proofs_per_window: 3,
            default_window_ms: 2000,
            poll_interval_ms: 500,
            events_read_limit: 5000,
        },
        peers: PeersConfig { targets: vec!["127.0.0.1:8444".to_string()] },
        storage: StorageConfig { in_flight_path: "data/in_flight.json".to_string() },
        http: HttpConfig::default(),
        protocol_version: None,
    }
}

#[test]
fn config_validation_order() {
    assert_eq!(config().validate(true), Ok(()));
    assert_eq!(config().validate(false), Err(ConfigError::InvalidListenAddr));
    let mut c = config();
    c.network_id = " \t\u{3000} ".to_string();
    assert_eq!(c.validate(true), Err(ConfigError::EmptyNetworkId));
    let mut c = config();
    c.archive.db_path = String::new();
    assert_eq!(c.validate(true), Err(ConfigError::EmptyDbPath));
    let mut c = config();
    c.injector.default_proofs_per_window = 0;
    c.injector.poll_interval_ms = 0;
    assert_eq!(c.validate(true), Err(ConfigError::ZeroProofsPerWindow));
    let mut c = config();
    c.injector.default_window_ms = 0;
    assert_eq!(c.validate(true), Err(ConfigError::ZeroWindowMs));
    let mut c = config();
    c.injector.poll_interval_ms = 0;
    assert_eq!(c.validate(true), Err(ConfigError::ZeroPollInterval));
    let mut c = config();
    c.injector.events_read_limit = 0;
    assert_eq!(c.validate(true), Err(ConfigError::ZeroEventsReadLimit));
    let mut c = config();
    c.peers.targets.clear();
    assert_eq!(c.validate(true), Err(ConfigError::NoPeerTargets));
    let mut c = config();
    c.storage.in_flight_path = String::new();
    assert_eq!(c.validate(true), Err(ConfigError::EmptyInFlightPath));
}

#[test]
fn config_defaults() {
    assert_eq!(default_tls_cert_path(), "~/.chia/mainnet/config/ssl/full_node/public_full_node.crt");
    assert_eq!(default_tls_key_path(), "~/.chia/mainnet/config/ssl/full_node/public_full_node.key");
    assert_eq!(default_http_listen_addr(), "127.0.0.1:6182");
    assert_eq!(default_static_dir(), "ui/dist");
    assert_eq!(default_in_flight_path(), "data/in_flight.json");
    assert_eq!(default_archive_busy_timeout_ms(), 500);
    let h = HttpConfig::default();
    assert_eq!(h.listen_addr, "127.0.0.1:6182");
}
