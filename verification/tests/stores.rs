use http_metrics::connect::{AppConnect, Connect};
use http_metrics::logger::{Level, LevelBasedWriter};
use http_metrics::repository::{Cache, Database, Field};

fn field(key: &str, value: &str) -> Field {
    Field { key: key.to_string(), value: value.to_string() }
}

#[test]
fn pool_plans() {
    let plan = AppConnect::create_db_pool("mysql://u:p@h/d").unwrap();
    assert_eq!(plan.url, "mysql://u:p@h/d");
    assert_eq!((plan.min_connections, plan.max_connections), (10, 20));
    let plan = Connect::create_db_pool("mysql://u:p@h/d").unwrap();
    assert_eq!((plan.min_connections, plan.max_connections), (100, 200));
    let plan = AppConnect::create_redis_pool("redis://h").unwrap();
    assert_eq!(plan.url, "redis://h");
    assert_eq!((plan.max_size, plan.timeout_secs), (None, None));
    let plan = Connect::create_redis_pool("redis://h").unwrap();
    assert_eq!((plan.max_size, plan.timeout_secs), (Some(40), Some(1)));
}

#[test]
fn empty_address_has_no_plan() {
    assert!(AppConnect::create_db_pool("").is_none());
    assert!(AppConnect::create_redis_pool("").is_none());
    assert!(Connect::create_db_pool("").is_none());
    assert!(Connect::create_redis_pool("").is_none());
}

#[test]
fn cache_key() {
    assert_eq!(Cache::setting_key(0), "u:0:setting");
    assert_eq!(Cache::setting_key(12345), "u:12345:setting");
    assert_eq!(Cache::setting_key(u64::MAX), "u:18446744073709551615:setting");
}

#[test]
fn statements() {
    assert_eq!(Database::select_statement(), "SELECT content FROM settings WHERE uid = ? LIMIT 1");
    assert_eq!(Database::upsert_statement(&Vec::new()), None);
    assert_eq!(
        Database::upsert_statement(&vec![field("theme", "\"dark\"")]).unwrap(),
        "INSERT INTO settings (uid, content, event_time) VALUES (?, ?, ?) ON DUPLICATE KEY UPDATE content = JSON_SET(content, '$.theme', \"dark\"), event_time = ?"
    );
    assert_eq!(
        Database::upsert_statement(&vec![field("a", "1"), field("b", "true"), field("c", "null")])
            .unwrap(),
        "INSERT INTO settings (uid, content, event_time) VALUES (?, ?, ?) ON DUPLICATE KEY UPDATE content = JSON_SET(content, '$.a', 1, '$.b', true, '$.c', null), event_time = ?"
    );
}

#[test]
fn log_file_names() {
    assert_eq!(LevelBasedWriter::open_file("info", "2024-05-06"), "info_2024-05-06.log");
    assert_eq!(
        LevelBasedWriter::open_file(Level::Error.file_prefix(), "2024-05-06"),
        "error_2024-05-06.log"
    );
    let words: Vec<&str> =
        [Level::Trace, Level::Debug, Level::Info, Level::Warn, Level::Error]
            .iter()
            .map(|l| l.file_prefix())
            .collect();
    assert_eq!(words, vec!["trace", "debug", "info", "warn", "error"]);
}

#[test]
fn rotation_on_a_new_day() {
    let mut writer = LevelBasedWriter::new("/var/log/app", 15, "2024-05-06");
    assert_eq!(writer.log_path(), "/var/log/app");
    assert_eq!(writer.current_day(), "2024-05-06");
    assert!(!writer.rotate_if_needed("2024-05-06"));
    assert!(writer.rotate_if_needed("2024-05-07"));
    assert_eq!(writer.current_day(), "2024-05-07");
    assert!(!writer.rotate_if_needed("2024-05-07"));
}

#[test]
fn old_files_beyond_the_limit_go() {
    let writer = LevelBasedWriter::new("/var/log/app", 15, "2024-05-06");
    assert_eq!(writer.cleanup_old_files(0), 0);
    assert_eq!(writer.cleanup_old_files(15), 0);
    assert_eq!(writer.cleanup_old_files(16), 1);
    assert_eq!(writer.cleanup_old_files(40), 25);
}

#[test]
fn log_lines() {
    assert_eq!(
        LevelBasedWriter::write(
            "2024-05-06 07:08:09",
            Level::Warn,
            Some("src/main.rs"),
            Some(42),
            "slow request"
        ),
        "[2024-05-06 07:08:09] WARN [src/main.rs:42] -> slow request\n"
    );
    assert_eq!(
        LevelBasedWriter::write("t", Level::Info, None, None, ""),
        "[t] INFO [unknown:?] -> \n"
    );
    assert_eq!(Level::Trace.as_str(), "TRACE");
    assert_eq!(Level::Debug.as_str(), "DEBUG");
    assert_eq!(Level::Error.as_str(), "ERROR");
}
