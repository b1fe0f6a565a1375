use server_ops::config::{Dependency, DiffAction, ServerConfig, ServerKind, UPDATE_AUDITOR, UPDATE_ESCAPER};
use server_ops::instance::ServerInstance;
use server_ops::registry::{Registry, ServeError};

fn cfg(name: &str, kind: ServerKind, port: u16) -> ServerConfig {
    ServerConfig {
        name: name.to_string(),
        kind,
        listen_port: port,
        escaper: "default".to_string(),
        user_group: String::new(),
        auditor: String::new(),
        revision: 0,
        position: Some(format!("servers/{name}.yaml")),
    }
}

fn online_names(r: &Registry) -> Vec<String> {
    let mut names = r.get_names();
    names.sort();
    names
}

#[test]
fn create_then_replace_and_delete() {
    let mut r = Registry::new();
    let first = vec![cfg("A", ServerKind::TcpStream, 80), cfg("B", ServerKind::TlsStream, 443)];
    assert_eq!(r.spawn_all(&first), Ok(()));
    assert_eq!(online_names(&r), vec!["A".to_string(), "B".to_string()]);
    assert_eq!(r.get_server(&"A".to_string()).unwrap().total_accepted, 0);
    assert!(r.offline.is_empty());

    let old_b = r.get_config(&"B".to_string()).unwrap();
    let second = vec![cfg("B", ServerKind::TlsStream, 8443)];
    assert_eq!(old_b.diff_action(&second[0]), DiffAction::ReloadAndRespawn);
    assert_eq!(r.spawn_all(&second), Ok(()));
    assert_eq!(online_names(&r), vec!["B".to_string()]);
    assert_eq!(r.get_config(&"B".to_string()).unwrap().listen_port, 8443);
    assert!(r.get_server(&"A".to_string()).is_none());
    // the old B and the deleted A drain offline
    assert_eq!(r.offline.len(), 2);
    assert!(r.offline.iter().all(|s| !s.accepting));
}

#[test]
fn reconciling_twice_changes_nothing() {
    let mut r = Registry::new();
    let desired = vec![
        cfg("a", ServerKind::HttpProxy, 3128),
        cfg("b", ServerKind::SocksProxy, 1080),
        cfg("c", ServerKind::SniProxy, 443),
    ];
    assert_eq!(r.spawn_all(&desired), Ok(()));
    assert!(r.record_accept(&"a".to_string()));
    let before: Vec<ServerInstance> = r.online.iter().map(|s| s.duplicate()).collect();
    for c in &desired {
        let current = r.get_config(&c.name).unwrap();
        assert_eq!(current.diff_action(c), DiffAction::NoAction);
    }
    assert_eq!(r.spawn_all(&desired), Ok(()));
    assert_eq!(r.online.len(), before.len());
    for (now, was) in r.online.iter().zip(before.iter()) {
        assert_eq!(now.config.name, was.config.name);
        assert_eq!(now.total_accepted, was.total_accepted);
        assert_eq!(now.alive_count, was.alive_count);
        assert!(now.accepting);
    }
    assert!(r.offline.is_empty());
}

#[test]
fn online_set_follows_desired_set() {
    let mut r = Registry::new();
    assert_eq!(r.spawn_all(&vec![cfg("x", ServerKind::PlainTcpPort, 1), cfg("y", ServerKind::PlainTcpPort, 2)]), Ok(()));
    assert_eq!(r.spawn_all(&vec![cfg("y", ServerKind::PlainTcpPort, 2), cfg("z", ServerKind::PlainTcpPort, 3)]), Ok(()));
    assert_eq!(online_names(&r), vec!["y".to_string(), "z".to_string()]);
    assert_eq!(r.spawn_all(&vec![]), Ok(()));
    assert!(r.get_names().is_empty());
    assert_eq!(r.offline.len(), 3);
}

#[test]
fn respawn_keeps_counters_spawn_new_resets() {
    let mut r = Registry::new();
    assert_eq!(r.spawn_all(&vec![cfg("p", ServerKind::HttpProxy, 8080), cfg("q", ServerKind::HttpProxy, 8081)]), Ok(()));
    for _ in 0..5 {
        assert!(r.record_accept(&"p".to_string()));
        assert!(r.record_accept(&"q".to_string()));
    }
    // new port: respawn with the counters; new kind: a new server
    assert_eq!(r.spawn_all(&vec![cfg("p", ServerKind::HttpProxy, 9090), cfg("q", ServerKind::SocksProxy, 8081)]), Ok(()));
    let p = r.get_server(&"p".to_string()).unwrap();
    assert_eq!(p.total_accepted, 5);
    assert_eq!(p.alive_count, 0);
    let q = r.get_server(&"q".to_string()).unwrap();
    assert_eq!(q.total_accepted, 0);
    assert_eq!(q.config.kind, ServerKind::SocksProxy);
    assert_eq!(r.offline.len(), 2);
    assert!(r.offline.iter().all(|s| s.alive_count == 5 && !s.accepting));
}

#[test]
fn invalid_config_leaves_registry_unchanged() {
    let mut r = Registry::new();
    assert_eq!(r.spawn_all(&vec![cfg("a", ServerKind::TcpStream, 80)]), Ok(()));
    let result = r.spawn_all(&vec![cfg("a", ServerKind::TcpStream, 81), cfg("b", ServerKind::TcpStream, 0)]);
    assert_eq!(result, Err(ServeError::ConfigError));
    assert_eq!(online_names(&r), vec!["a".to_string()]);
    assert_eq!(r.get_config(&"a".to_string()).unwrap().listen_port, 80);
    assert!(r.offline.is_empty());
}

#[test]
fn distinct_names_check() {
    assert!(Registry::desired_names_distinct(&vec![cfg("a", ServerKind::TcpStream, 1), cfg("b", ServerKind::TcpStream, 2)]));
    assert!(!Registry::desired_names_distinct(&vec![cfg("a", ServerKind::TcpStream, 1), cfg("a", ServerKind::TlsStream, 2)]));
    assert!(Registry::desired_names_distinct(&vec![]));
}

#[test]
fn diff_policy() {
    let base = cfg("s", ServerKind::HttpProxy, 80);
    assert_eq!(base.diff_action(&base.duplicate()), DiffAction::NoAction);
    let mut c = base.duplicate();
    c.kind = ServerKind::HttpRProxy;
    assert_eq!(base.diff_action(&c), DiffAction::SpawnNew);
    let mut c = base.duplicate();
    c.listen_port = 81;
    assert_eq!(base.diff_action(&c), DiffAction::ReloadAndRespawn);
    let mut c = base.duplicate();
    c.escaper = "other".to_string();
    c.auditor = "audit".to_string();
    assert_eq!(base.diff_action(&c), DiffAction::UpdateInPlace(UPDATE_ESCAPER + UPDATE_AUDITOR));
    let mut c = base.duplicate();
    c.revision = 7;
    assert_eq!(base.diff_action(&c), DiffAction::ReloadOnlyConfig);
    let mut c = base.duplicate();
    c.position = None;
    assert_eq!(base.diff_action(&c), DiffAction::ReloadOnlyConfig);
}

#[test]
fn update_in_place_and_reload_only_config() {
    let mut r = Registry::new();
    assert_eq!(r.spawn_all(&vec![cfg("s", ServerKind::HttpProxy, 80)]), Ok(()));
    assert!(r.record_accept(&"s".to_string()));
    let mut c = cfg("s", ServerKind::HttpProxy, 80);
    c.user_group = "staff".to_string();
    assert_eq!(r.spawn_all(&vec![c]), Ok(()));
    let s = r.get_server(&"s".to_string()).unwrap();
    assert_eq!(s.dependency_reloads, 1);
    assert_eq!(s.alive_count, 1);
    assert_eq!(s.config.user_group, "staff");
    let mut c = cfg("s", ServerKind::HttpProxy, 80);
    c.user_group = "staff".to_string();
    c.revision = 2;
    assert_eq!(r.reload_only_config(c), Ok(()));
    let s = r.get_server(&"s".to_string()).unwrap();
    assert_eq!(s.config.revision, 2);
    assert_eq!(s.dependency_reloads, 1);
    assert_eq!(r.reload_only_config(cfg("nope", ServerKind::HttpProxy, 80)), Err(ServeError::NotFound));
    assert_eq!(r.update_config_in_place(UPDATE_ESCAPER, cfg("nope", ServerKind::HttpProxy, 80)), Err(ServeError::NotFound));
    assert_eq!(r.reload_and_respawn(cfg("nope", ServerKind::HttpProxy, 80)), Err(ServeError::NotFound));
    assert_eq!(r.reload_and_respawn(cfg("s", ServerKind::HttpProxy, 0)), Err(ServeError::ConfigError));
}

#[test]
fn single_reload() {
    let mut r = Registry::new();
    assert_eq!(r.spawn_all(&vec![cfg("s", ServerKind::TcpStream, 80)]), Ok(()));
    let name = "s".to_string();
    assert_eq!(r.reload_position(&name, None), Ok("servers/s.yaml".to_string()));
    assert_eq!(r.reload_position(&name, Some("elsewhere".to_string())), Ok("elsewhere".to_string()));
    assert_eq!(r.reload_position(&"t".to_string(), None), Err(ServeError::NotFound));
    assert_eq!(r.reload(&"t".to_string(), cfg("t", ServerKind::TcpStream, 80)), Err(ServeError::NotFound));
    assert_eq!(r.reload(&name, cfg("u", ServerKind::TcpStream, 80)), Err(ServeError::ConfigMismatch));
    assert_eq!(r.reload(&name, cfg("s", ServerKind::TlsStream, 0)), Err(ServeError::ConfigError));
    assert_eq!(r.reload(&name, cfg("s", ServerKind::TcpStream, 81)), Ok(()));
    assert_eq!(r.get_config(&name).unwrap().listen_port, 81);
    assert_eq!(r.offline.len(), 1);

    let mut c = cfg("s", ServerKind::TcpStream, 81);
    c.position = None;
    assert_eq!(r.reload(&name, c), Ok(()));
    assert_eq!(r.reload_position(&name, None), Err(ServeError::NoPosition));
}

#[test]
fn add_refuses_a_second_online_instance() {
    let mut r = Registry::new();
    let s = ServerInstance::prepare_initial(cfg("s", ServerKind::DummyClose, 1)).unwrap();
    assert_eq!(r.add(s), Ok(()));
    let again = ServerInstance::prepare_initial(cfg("s", ServerKind::DummyClose, 2)).unwrap();
    assert_eq!(r.add(again), Err(ServeError::AlreadyOnline));
    assert!(ServerInstance::prepare_initial(cfg("s", ServerKind::DummyClose, 0)).is_none());
    assert_eq!(r.spawn_new_unlocked(cfg("s", ServerKind::DummyClose, 0)), Err(ServeError::ConfigError));
    assert_eq!(r.spawn_new_unlocked(cfg("s", ServerKind::DummyClose, 3)), Ok(()));
    assert_eq!(r.get_config(&"s".to_string()).unwrap().listen_port, 3);
    assert_eq!(r.offline.len(), 1);
    assert!(r.del(&"s".to_string()));
    assert!(!r.del(&"s".to_string()));
    assert_eq!(r.offline.len(), 2);
}

fn with_escaper(name: &str, kind: ServerKind, port: u16, escaper: &str) -> ServerConfig {
    let mut c = cfg(name, kind, port);
    c.escaper = escaper.to_string();
    c
}

#[test]
fn dependency_reload_is_best_effort() {
    let mut r = Registry::new();
    let desired = vec![
        with_escaper("one", ServerKind::HttpProxy, 1, "e1"),
        with_escaper("two", ServerKind::DummyClose, 2, "e1"),
        with_escaper("three", ServerKind::SocksProxy, 3, "e1"),
        with_escaper("four", ServerKind::SocksProxy, 4, "e2"),
    ];
    assert_eq!(r.spawn_all(&desired), Ok(()));
    let failed = r.update_dependency_to_escaper(&"e1".to_string());
    assert_eq!(failed, vec!["two".to_string()]);
    assert_eq!(r.get_server(&"one".to_string()).unwrap().dependency_reloads, 1);
    assert_eq!(r.get_server(&"two".to_string()).unwrap().dependency_reloads, 0);
    assert_eq!(r.get_server(&"three".to_string()).unwrap().dependency_reloads, 1);
    assert_eq!(r.get_server(&"four".to_string()).unwrap().dependency_reloads, 0);
    assert!(r.update_dependency_to_escaper(&"none".to_string()).is_empty());
}

#[test]
fn user_group_and_auditor_reloads() {
    let mut r = Registry::new();
    let mut a = cfg("a", ServerKind::HttpProxy, 1);
    a.user_group = "g".to_string();
    a.auditor = "au".to_string();
    let mut b = cfg("b", ServerKind::TcpStream, 2);
    b.user_group = "g".to_string();
    b.auditor = "au".to_string();
    assert_eq!(r.spawn_all(&vec![a, b]), Ok(()));
    assert_eq!(r.update_dependency_to_user_group(&"g".to_string()), vec!["b".to_string()]);
    assert!(r.update_dependency_to_auditor(&"au".to_string()).is_empty());
    assert_eq!(r.get_server(&"a".to_string()).unwrap().dependency_reloads, 2);
    assert_eq!(r.get_server(&"b".to_string()).unwrap().dependency_reloads, 1);
    assert_eq!(r.reload_only_user_group(&"b".to_string()), Err(ServeError::ReconcileError));
    assert_eq!(r.reload_only_auditor(&"b".to_string()), Ok(()));
    assert_eq!(r.reload_only_escaper(&"zz".to_string()), Err(ServeError::NotFound));
    assert_eq!(r.reload_only_dependency(&"a".to_string(), Dependency::Escaper), Ok(()));
    assert_eq!(r.get_server(&"a".to_string()).unwrap().dependency_reloads, 3);
}

#[test]
fn stop_force_quit_and_reap() {
    let mut r = Registry::new();
    assert_eq!(r.spawn_all(&vec![cfg("a", ServerKind::TcpStream, 1), cfg("b", ServerKind::TcpStream, 2)]), Ok(()));
    assert!(r.record_accept(&"a".to_string()));
    assert!(r.record_accept(&"a".to_string()));
    r.stop_all();
    assert!(r.get_names().is_empty());
    assert!(r.get_server(&"a".to_string()).is_none());
    assert_eq!(r.offline.len(), 2);
    assert!(r.has_pending_offline());
    let pending = r.pending_offline();
    assert_eq!(pending.len(), 1);
    assert_eq!(pending[0].name, "a");
    assert_eq!(pending[0].alive_count, 2);

    r.force_quit_offline_server(&"b".to_string());
    assert!(!r.offline[0].force_quit);
    assert!(r.offline[1].force_quit);
    r.force_quit_offline_servers();
    assert!(r.offline.iter().all(|s| s.force_quit));

    r.retain_offline();
    assert_eq!(r.offline.len(), 1);
    assert!(r.record_offline_close(0));
    assert!(r.record_offline_close(0));
    assert!(!r.record_offline_close(0));
    assert!(!r.has_pending_offline());
    r.retain_offline();
    assert!(r.offline.is_empty());
}
