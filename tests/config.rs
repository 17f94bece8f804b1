use std::path::PathBuf;

use antikoerper::conf;
use antikoerper::conf::{ConfigError, OutputKind};
use antikoerper::digest::DigestKind;
use antikoerper::item::ItemKind;

#[test]
fn load() {
    let data = r#"[general]
         [[output]]
         type = "file"
         base_path = "/tmp/test"

         [[items]]
         key = "os.uptime"
         interval = 60
         input.type = "shell"
         input.script = "cat /proc/uptime | cut -d' ' -f1"

         [[items]]
         key = "os.loadavg"
         interval = 1
         input.type = "shell"
         input.script = "cat /proc/loadavg | cut -d' ' -f1"
"#;

    let config = conf::load(data).unwrap();
    assert_eq!(config.items.len(), 2);
}

#[test]
fn no_duplicates() {
    let data = r#"[general]
         [[output]]
         type = "file"
         base_path = "/tmp/test"

         [[items]]
         key = "os.uptime"
         interval = 60
         input.type = "shell"
         input.script = "cat /proc/uptime | cut -d' ' -f1"

         [[items]]
         key = "os.uptime"
         interval = 1
         input.type = "shell"
         input.script = "cat /proc/loadavg | cut -d' ' -f1"
"#;

    let config = conf::load(data);
    assert!(config.is_err());
}

#[test]
fn output_dir() {
    // No output given, default should be used
    let data = r#"[general]
        [[items]]
        key = "os.battery"
        interval = 60
        input.type = "command"
        input.path = "acpi"
        "#;
    let mut config = conf::load(data).unwrap();
    match config.output.pop().unwrap() {
        conf::OutputKind::File { base_path, .. } => {
            assert_eq!(PathBuf::from(base_path), PathBuf::from("/var/log/antikoerper"))
        }
        _ => {
            println!("Error: wrong OutputKind");
        }
    }
}

#[test]
fn duplicate_keys_are_listed() {
    let data = r#"[general]
        [[items]]
        key = "a"
        interval = 1
        input.type = "file"
        input.path = "/x"

        [[items]]
        key = "a"
        interval = 2
        input.type = "file"
        input.path = "/y"
        "#;
    match conf::load(data) {
        Err(ConfigError::DuplicateKeys { keys }) => assert_eq!(keys, vec!["a".to_string()]),
        other => panic!("unexpected: {:?}", other),
    }
}

#[test]
fn zero_interval_is_refused() {
    let data = r#"[general]
        [[items]]
        key = "a"
        interval = 0
        input.type = "file"
        input.path = "/x"
        "#;
    match conf::load(data) {
        Err(ConfigError::IntervalTooSmall { keys }) => assert_eq!(keys, vec!["a".to_string()]),
        other => panic!("unexpected: {:?}", other),
    }
}

#[test]
fn syntax_error_is_reported() {
    assert!(matches!(conf::load("[general"), Err(ConfigError::Syntax)));
}

#[test]
fn missing_items_is_invalid() {
    assert!(matches!(conf::load("[general]\n"), Err(ConfigError::Invalid { .. })));
}

#[test]
fn full_item_and_influx_output() {
    let data = r#"[general]
        shell = "/bin/bash"

        [[output]]
        type = "influxdb"
        username = "u"
        password = "p"
        use_raw_as_fallback = true

        [[items]]
        key = "cpu"
        interval = 5
        env = { A = "1", B = "2" }
        input.type = "command"
        input.path = "/usr/bin/top"
        input.args = ["-b", "-n1"]
        digest.type = "regex"
        digest.regex = "(?P<val>\\d+)"

        [[items]]
        key = "load"
        interval = 10
        input.type = "shell"
        input.script = "check_load"
        digest.type = "monitoring-plugin"
        "#;
    let config = conf::load(data).unwrap();
    assert_eq!(config.general.shell, "/bin/bash");
    match &config.output[0] {
        OutputKind::InfluxDB { url, database, auth, use_raw_as_fallback, always_write_raw } => {
            assert_eq!(url, "http://localhost:8086");
            assert_eq!(database, "antikoerper");
            let auth = auth.as_ref().unwrap();
            assert_eq!(auth.username, "u");
            assert_eq!(auth.password, "p");
            assert!(*use_raw_as_fallback);
            assert!(!*always_write_raw);
        }
        _ => panic!("expected an influxdb output"),
    }
    let cpu = &config.items[0];
    assert_eq!(cpu.interval, 5);
    assert_eq!(cpu.env, vec![("A".to_string(), "1".to_string()), ("B".to_string(), "2".to_string())]);
    match &cpu.kind {
        ItemKind::Command { path, args } => {
            assert_eq!(path, "/usr/bin/top");
            assert_eq!(args, &vec!["-b".to_string(), "-n1".to_string()]);
        }
        _ => panic!("expected a command"),
    }
    match &cpu.digest {
        DigestKind::Regex { regex } => assert_eq!(regex, "(?P<val>\\d+)"),
        _ => panic!("expected a regex digest"),
    }
    assert!(matches!(config.items[1].digest, DigestKind::MonitoringPlugin));
}

#[test]
fn defaults() {
    assert_eq!(conf::shell_default(), "/bin/sh");
    assert_eq!(conf::influx_url_default(), "http://localhost:8086");
    assert_eq!(conf::influx_database_default(), "antikoerper");
    let outputs = conf::default_output();
    assert_eq!(outputs.len(), 1);
    match &outputs[0] {
        OutputKind::File { base_path, always_write_raw } => {
            assert_eq!(base_path, "/var/log/antikoerper/");
            assert!(!*always_write_raw);
        }
        _ => panic!("expected a file output"),
    }
}

#[test]
fn invalid_pattern_is_refused() {
    let data = r#"[general]
        [[items]]
        key = "a"
        interval = 1
        input.type = "file"
        input.path = "/x"
        digest.type = "regex"
        digest.regex = "(?P<v>\\d+"
        "#;
    match conf::load(data) {
        Err(ConfigError::Invalid { .. }) => {}
        other => panic!("unexpected: {:?}", other),
    }
}

#[test]
fn duplicate_keys_apart_are_found() {
    let data = r#"[general]
        [[items]]
        key = "z"
        interval = 1
        input.type = "file"
        input.path = "/x"

        [[items]]
        key = "b"
        interval = 1
        input.type = "file"
        input.path = "/y"

        [[items]]
        key = "z"
        interval = 1
        input.type = "file"
        input.path = "/z"
        "#;
    match conf::load(data) {
        Err(ConfigError::DuplicateKeys { keys }) => assert_eq!(keys, vec!["z".to_string()]),
        other => panic!("unexpected: {:?}", other),
    }
}

#[test]
fn item_defaults() {
    let data = "[general]\n[[items]]\nkey = 'a'\ninterval = 1\ninput.type = 'file'\ninput.path = '/x'\n";
    let c = conf::load(data).unwrap();
    assert_eq!(c.general.shell, "/bin/sh");
    assert!(c.items[0].env.is_empty());
    assert!(matches!(c.items[0].digest, DigestKind::Raw));
    match &c.items[0].kind {
        ItemKind::File { path } => assert_eq!(PathBuf::from(path), PathBuf::from("/x")),
        _ => panic!("expected a file source"),
    }
}

#[test]
fn influx_defaults() {
    let data = "[general]\n[[output]]\ntype = 'influxdb'\n[[items]]\nkey = 'a'\ninterval = 1\ninput.type = 'shell'\ninput.script = 'true'\n";
    let c = conf::load(data).unwrap();
    match &c.output[0] {
        OutputKind::InfluxDB { url, database, auth, use_raw_as_fallback, always_write_raw } => {
            assert_eq!(url, "http://localhost:8086");
            assert_eq!(database, "antikoerper");
            assert!(auth.is_none());
            assert!(!*use_raw_as_fallback);
            assert!(!*always_write_raw);
        }
        _ => panic!("expected an influxdb output"),
    }
}

#[test]
fn document_order_is_kept() {
    let data = r#"[general]
         [[output]]
         type = "file"
         base_path = "/tmp/test"

         [[items]]
         key = "os.uptime"
         interval = 60
         input.type = "shell"
         input.script = "cat /proc/uptime | cut -d' ' -f1"

         [[items]]
         key = "os.loadavg"
         interval = 1
         input.type = "shell"
         input.script = "cat /proc/loadavg | cut -d' ' -f1"
"#;
    let c = conf::load(data).unwrap();
    assert_eq!(c.items[0].key, "os.uptime");
    assert_eq!(c.items[0].interval, 60);
    assert_eq!(c.items[1].key, "os.loadavg");
    assert_eq!(c.items[1].interval, 1);
    assert_eq!(c.output.len(), 1);
    match &c.output[0] {
        OutputKind::File { base_path, always_write_raw } => {
            assert_eq!(base_path, "/tmp/test");
            assert!(!*always_write_raw);
        }
        _ => panic!("expected a file output"),
    }
}

#[test]
fn malformed_documents_are_refused() {
    let base = "[general]\n[[items]]\nkey = 'a'\n";
    for rest in [
        "interval = -1\ninput.type = 'file'\ninput.path = '/x'\n",
        "interval = 1\ninput.type = 'socket'\ninput.path = '/x'\n",
        "interval = 1\n",
        "interval = '1'\ninput.type = 'file'\ninput.path = '/x'\n",
        "interval = 1\ninput.type = 'file'\ninput.path = '/x'\nenv = { A = 1 }\n",
    ] {
        let doc = format!("{}{}", base, rest);
        assert!(matches!(conf::load(&doc), Err(ConfigError::Invalid { .. })), "{}", doc);
    }
    assert!(matches!(conf::load("[general]\n"), Err(ConfigError::Invalid { .. })));
    assert!(matches!(conf::load("items = 3\n"), Err(ConfigError::Invalid { .. })));
}
