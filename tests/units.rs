use buckle::client::Client;
use buckle::config::{default_zpool, Config, ZFSConfig};
use buckle::server::Server;
use buckle::systemd::{EnabledState, LastRunState, RuntimeState, Unit};

#[test]
fn last_run_states_read_and_print() {
    for word in ["failed", "dead", "mounted", "running", "listening", "plugged", "exited", "active", "waiting"] {
        let state = LastRunState::from_str(word);
        assert!(!matches!(state, LastRunState::Unknown(_)));
        assert_eq!(state.to_string(), word);
    }
    assert_eq!(LastRunState::from_str("active"), LastRunState::Active);
    assert_eq!(LastRunState::from_str("weird"), LastRunState::Unknown("weird".to_string()));
    assert_eq!(LastRunState::Unknown("weird".to_string()).to_string(), "weird");
}

#[test]
fn runtime_states_fold_the_manager_words() {
    for word in ["started", "running", "mounted", "listening", "plugged", "active"] {
        assert_eq!(RuntimeState::from_str(word), RuntimeState::Started);
    }
    for word in ["stopped", "dead", "failed", "exited", "waiting"] {
        assert_eq!(RuntimeState::from_str(word), RuntimeState::Stopped);
    }
    assert_eq!(RuntimeState::from_str("restarted"), RuntimeState::Restarted);
    assert_eq!(RuntimeState::from_str("reloaded"), RuntimeState::Reloaded);
    assert_eq!(RuntimeState::from_str(""), RuntimeState::Unknown(String::new()));
    assert_eq!(RuntimeState::Reloaded.to_string(), "reloaded");
    assert_eq!(RuntimeState::Started.to_string(), "started");
}

#[test]
fn enabled_states_fold_the_manager_words() {
    assert_eq!(EnabledState::from_str("enabled"), EnabledState::Enabled);
    assert_eq!(EnabledState::from_str("active"), EnabledState::Enabled);
    assert_eq!(EnabledState::from_str("disabled"), EnabledState::Disabled);
    assert_eq!(EnabledState::from_str("inactive"), EnabledState::Disabled);
    assert_eq!(EnabledState::from_str("failed"), EnabledState::Failed);
    assert_eq!(EnabledState::from_str("Enabled"), EnabledState::Unknown("Enabled".to_string()));
    assert_eq!(EnabledState::Disabled.to_string(), "disabled");
}

#[test]
fn unit_entry_reads_states_from_its_columns() {
    let unit = Unit::from_entry(
        "zfs-import.target".to_string(),
        "ZFS pool import target".to_string(),
        "active",
        "active",
        "/org/freedesktop/systemd1/unit/zfs_2dimport_2etarget".to_string(),
    );
    assert_eq!(unit.name, "zfs-import.target");
    assert_eq!(unit.enabled_state, EnabledState::Enabled);
    assert_eq!(unit.runtime_state, RuntimeState::Started);
    assert_eq!(unit.last_run_state, LastRunState::Active);
    let unit = Unit::from_entry(String::new(), String::new(), "inactive", "dead", String::new());
    assert_eq!(unit.enabled_state, EnabledState::Disabled);
    assert_eq!(unit.runtime_state, RuntimeState::Stopped);
    assert_eq!(unit.last_run_state, LastRunState::Dead);
}

#[test]
fn configuration_defaults_to_the_trunk_pool() {
    assert_eq!(default_zpool(), "trunk");
    let zfs = ZFSConfig::new();
    assert_eq!(zfs.controller().name(), "trunk");
    let server = Server::new_with_config(Config {
        socket: "/trunk/socket/buckled.sock".to_string(),
        zfs: ZFSConfig { pool: "tank".to_string() },
    });
    assert_eq!(server.pool().name(), "tank");
    assert_eq!(server.settings().socket, "/trunk/socket/buckled.sock");
    let client = Client::new("/tmp/s.sock".to_string());
    assert_eq!(client.socket_path(), "/tmp/s.sock");
}
