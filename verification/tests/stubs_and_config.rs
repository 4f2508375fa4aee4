use fluvio_gateway::config::{load_config, ConfigError};
use fluvio_gateway::stubs::{
    commit_offset, create_smart_module, delete_smart_module, describe_consumer_group,
    describe_smart_module, health_check, list_consumer_groups, list_smart_modules,
    update_smart_module,
};

#[test]
fn health_check_is_fixed_ok() {
    let r = health_check();
    assert!(r.ok);
    assert_eq!(r.message, "ok");
}

#[test]
fn commit_offset_is_fixed_success() {
    let r = commit_offset();
    assert!(r.success);
    assert_eq!(r.error, "");
}

#[test]
fn consumer_group_stubs_are_empty() {
    let groups = list_consumer_groups();
    assert!(groups.groups.is_empty());
    assert_eq!(groups.error, "");
    let one = describe_consumer_group();
    assert_eq!(one.group_id, "");
    assert!(one.offsets.is_empty());
    assert_eq!(one.error, "");
}

#[test]
fn smart_module_stubs_are_fixed() {
    let create = create_smart_module();
    assert!(create.success);
    assert_eq!(create.error, "");
    let delete = delete_smart_module();
    assert!(delete.success);
    assert_eq!(delete.error, "");
    let update = update_smart_module();
    assert!(update.success);
    assert_eq!(update.error, "");
    let list = list_smart_modules();
    assert!(list.modules.is_empty());
    assert_eq!(list.error, "");
    let describe = describe_smart_module();
    assert!(describe.module_spec.is_none());
    assert_eq!(describe.error, "");
}

#[test]
fn load_config_reads_server_section() {
    let text = b"[server]\nhost = \"127.0.0.1\"\nport = 8080\n";
    let c = load_config(text).unwrap();
    assert_eq!(c.server.host, "127.0.0.1");
    assert_eq!(c.server.port, 8080);
}

#[test]
fn load_config_skips_comments_blanks_and_crlf() {
    let text = b"# gateway listen address\r\n\r\n[server]\r\n  host = \"0.0.0.0\"  \r\nport = 50051\r\n";
    let c = load_config(text).unwrap();
    assert_eq!(c.server.host, "0.0.0.0");
    assert_eq!(c.server.port, 50051);
}

#[test]
fn load_config_last_entry_wins() {
    let text = b"[server]\nhost = \"a\"\nport = 1\nhost = \"b\"\nport = 2\n";
    let c = load_config(text).unwrap();
    assert_eq!(c.server.host, "b");
    assert_eq!(c.server.port, 2);
}

#[test]
fn load_config_ignores_other_sections_and_keys() {
    let text = b"[log]\nlevel = \"debug\"\n[server]\nhost = \"h\"\nport = 9\nextra = 1\n";
    let c = load_config(text).unwrap();
    assert_eq!(c.server.host, "h");
    assert_eq!(c.server.port, 9);
}

#[test]
fn load_config_entries_outside_server_do_not_count() {
    let text = b"host = \"h\"\nport = 9\n[server]\nhost = \"h\"\nport = 9\n";
    assert!(load_config(text).is_ok());
    let other = b"[other]\nhost = \"h\"\nport = 9\n";
    assert_eq!(load_config(other).unwrap_err(), ConfigError::MissingHost);
}

#[test]
fn load_config_missing_host() {
    let text = b"[server]\nport = 8080\n";
    assert_eq!(load_config(text).unwrap_err(), ConfigError::MissingHost);
}

#[test]
fn load_config_missing_port() {
    let text = b"[server]\nhost = \"h\"\n";
    assert_eq!(load_config(text).unwrap_err(), ConfigError::MissingPort);
}

#[test]
fn load_config_empty_text_missing_host() {
    assert_eq!(load_config(b"").unwrap_err(), ConfigError::MissingHost);
}

#[test]
fn load_config_port_beyond_16_bits() {
    let text = b"[server]\nhost = \"h\"\nport = 70000\n";
    assert_eq!(load_config(text).unwrap_err(), ConfigError::PortOutOfRange);
    let max = load_config(b"[server]\nhost = \"h\"\nport = 65535\n").unwrap();
    assert_eq!(max.server.port, 65535);
    let over = b"[server]\nhost = \"h\"\nport = 65536\n";
    assert_eq!(load_config(over).unwrap_err(), ConfigError::PortOutOfRange);
}

#[test]
fn load_config_malformed_port_value() {
    let text = b"[server]\nhost = \"h\"\nport = 12ab\n";
    assert_eq!(load_config(text).unwrap_err(), ConfigError::Malformed);
    let quoted = b"[server]\nhost = \"h\"\nport = \"8080\"\n";
    assert_eq!(load_config(quoted).unwrap_err(), ConfigError::Malformed);
}

#[test]
fn load_config_malformed_lines() {
    assert_eq!(load_config(b"[server\n").unwrap_err(), ConfigError::Malformed);
    assert_eq!(load_config(b"[server]\njust words\n").unwrap_err(), ConfigError::Malformed);
    assert_eq!(
        load_config(b"[server]\nhost = bare\nport = 1\n").unwrap_err(),
        ConfigError::Malformed,
    );
}

#[test]
fn load_config_no_trailing_newline() {
    let text = b"[server]\nhost = \"h\"\nport = 7";
    let c = load_config(text).unwrap();
    assert_eq!(c.server.port, 7);
}

#[test]
fn load_config_decodes_host_bytes() {
    let text = "[server]\nhost = \"h\u{00e9}\"\nport = 1\n".as_bytes();
    let c = load_config(text).unwrap();
    assert_eq!(c.server.host, "h\u{00e9}");
}
