use fim::config::{
    choose_config_path, get_config_path, Config, ConfigError, LogLevel, RawSettings, BOTH_MODE,
    FILE_MODE, NETWORK_MODE, VERSION,
};
use fim::scope::Rule;

fn rule(path: &str, labels: &[&str], ignore: &[&str]) -> Rule {
    Rule {
        path: String::from(path),
        labels: labels.iter().map(|s| String::from(*s)).collect(),
        ignore: ignore.iter().map(|s| String::from(*s)).collect(),
    }
}

fn create_test_config(filter: &str, events_destination: &str) -> Config {
    Config {
        version: String::from(VERSION),
        path: String::from("test"),
        events_destination: String::from(events_destination),
        events_max_file_checksum: 64,
        endpoint_address: String::from("test"),
        endpoint_user: String::from("test"),
        endpoint_pass: String::from("test"),
        events_file: String::from("test"),
        monitor: Vec::new(),
        audit: Vec::new(),
        node: String::from("test"),
        log_file: String::from("./test.log"),
        log_level: String::from(filter),
        system: String::from("test"),
        insecure: true,
    }
}

fn linux_monitor() -> Vec<Rule> {
    vec![
        rule("/bin/", &[], &[]),
        rule("/usr/bin/", &["usr/bin", "linux"], &[]),
        rule("/etc", &["etc", "linux"], &[]),
    ]
}

fn linux_audit() -> Vec<Rule> {
    vec![rule("/tmp", &["tmp", "linux"], &[".swp"])]
}

fn linux_settings() -> RawSettings {
    RawSettings {
        events_destination: Some(String::from("file")),
        events_file: Some(String::from("/var/lib/fim/events.json")),
        events_max_file_checksum: None,
        insecure: None,
        endpoint_address: None,
        endpoint_user: None,
        endpoint_pass: None,
        monitor: Some(linux_monitor()),
        audit: Some(linux_audit()),
        node: Some(String::from("FIM")),
        log_file: Some(String::from("/var/log/fim/fim.log")),
        log_level: Some(String::from("info")),
    }
}

fn macos_settings() -> RawSettings {
    let mut s = linux_settings();
    s.audit = None;
    s
}

fn windows_settings() -> RawSettings {
    RawSettings {
        events_destination: Some(String::from("file")),
        events_file: Some(String::from("C:\\ProgramData\\fim\\events.json")),
        events_max_file_checksum: None,
        insecure: None,
        endpoint_address: None,
        endpoint_user: None,
        endpoint_pass: None,
        monitor: Some(vec![
            rule("C:\\Program Files\\", &["Program Files", "windows"], &[]),
            rule("C:\\Users\\", &["Users", "windows"], &[]),
        ]),
        audit: None,
        node: Some(String::from("FIM")),
        log_file: Some(String::from("C:\\ProgramData\\fim\\fim.log")),
        log_level: Some(String::from("info")),
    }
}

fn network_settings() -> RawSettings {
    let mut s = linux_settings();
    s.events_destination = Some(String::from("network"));
    s.endpoint_address = Some(String::from("0.0.0.0"));
    s.endpoint_user = Some(String::from("test"));
    s.endpoint_pass = Some(String::from("test"));
    s
}

fn load(system: &str, settings: RawSettings) -> Config {
    Config::new(
        system,
        String::from("test"),
        settings,
        String::from("machine-id-test"),
        String::from("hostname-test"),
    )
    .expect("settings should load")
}

fn load_err(system: &str, settings: RawSettings) -> Vec<ConfigError> {
    Config::new(
        system,
        String::from("test"),
        settings,
        String::from("machine-id-test"),
        String::from("hostname-test"),
    )
    .expect_err("settings should be rejected")
}

#[test]
fn test_clone() {
    let mut config = create_test_config("info", "");
    config.monitor = linux_monitor();
    config.audit = linux_audit();
    let cloned = config.clone();
    assert_eq!(config.version, cloned.version);
    assert_eq!(config.path, cloned.path);
    assert_eq!(config.events_destination, cloned.events_destination);
    assert_eq!(config.events_max_file_checksum, cloned.events_max_file_checksum);
    assert_eq!(config.endpoint_address, cloned.endpoint_address);
    assert_eq!(config.endpoint_user, cloned.endpoint_user);
    assert_eq!(config.endpoint_pass, cloned.endpoint_pass);
    assert_eq!(config.events_file, cloned.events_file);
    assert_eq!(config.monitor, cloned.monitor);
    assert_eq!(config.audit, cloned.audit);
    assert_eq!(config.node, cloned.node);
    assert_eq!(config.log_file, cloned.log_file);
    assert_eq!(config.log_level, cloned.log_level);
    assert_eq!(config.system, cloned.system);
    assert_eq!(config.insecure, cloned.insecure);
}

#[test]
fn test_new_config_windows() {
    let config = load("windows", windows_settings());
    assert_eq!(config.version, String::from(VERSION));
    assert_eq!(config.events_destination, String::from("file"));
    assert_eq!(config.endpoint_address, String::from("Not_used"));
    assert_eq!(config.endpoint_user, String::from("Not_used"));
    assert_eq!(config.endpoint_pass, String::from("Not_used"));
    assert_eq!(config.events_file, String::from("C:\\ProgramData\\fim\\events.json"));
    assert_eq!(config.node, String::from("FIM"));
    assert_eq!(config.log_file, String::from("C:\\ProgramData\\fim\\fim.log"));
    assert_eq!(config.log_level, String::from("info"));
    assert_eq!(config.system, String::from("windows"));
    assert_eq!(config.insecure, false);
}

#[test]
fn test_new_config_windows_events_destination() {
    let mut settings = windows_settings();
    settings.events_destination = None;
    let config = load("windows", settings);
    assert_eq!(config.events_destination, String::from("file"));
}

#[test]
fn test_new_config_windows_events_file() {
    let mut settings = windows_settings();
    settings.events_file = None;
    let errs = load_err("windows", settings);
    assert!(errs.contains(&ConfigError::MissingEventsFile));
}

#[test]
fn test_new_config_windows_events_destination_network() {
    let mut settings = network_settings();
    settings.audit = None;
    settings.events_file = None;
    let config = load("windows", settings);
    assert_eq!(config.events_file, String::from("Not_used"));
}

#[test]
fn test_new_config_windows_events_max_file_checksum() {
    let mut settings = windows_settings();
    settings.events_max_file_checksum = Some(128);
    let config = load("windows", settings);
    assert_eq!(config.events_max_file_checksum, 128);
}

#[test]
fn test_new_config_windows_events_endpoint_insecure() {
    let mut settings = windows_settings();
    settings.insecure = Some(true);
    let config = load("windows", settings);
    assert_eq!(config.insecure, true);
}

#[test]
fn test_new_config_windows_events_endpoint_insecure_none() {
    let config = load("windows", windows_settings());
    assert_eq!(config.insecure, false);
}

#[test]
fn test_new_config_windows_events_destination_network_address() {
    let mut settings = network_settings();
    settings.audit = None;
    let config = load("windows", settings);
    assert_eq!(config.endpoint_address, "0.0.0.0");
}

#[test]
fn test_new_config_windows_events_destination_network_address_none() {
    let mut settings = network_settings();
    settings.audit = None;
    settings.endpoint_address = None;
    let errs = load_err("windows", settings);
    assert!(errs.contains(&ConfigError::MissingEndpointAddress));
}

#[test]
fn test_new_config_windows_events_credentials_user() {
    let mut settings = network_settings();
    settings.audit = None;
    let config = load("windows", settings);
    assert_eq!(config.endpoint_user, "test");
}

#[test]
fn test_new_config_windows_events_credentials_user_none() {
    let mut settings = network_settings();
    settings.audit = None;
    settings.endpoint_user = None;
    let errs = load_err("windows", settings);
    assert!(errs.contains(&ConfigError::MissingEndpointUser));
}

#[test]
fn test_new_config_windows_events_credentials_password() {
    let mut settings = network_settings();
    settings.audit = None;
    let config = load("windows", settings);
    assert_eq!(config.endpoint_pass, "test");
}

#[test]
fn test_new_config_windows_events_credentials_password_none() {
    let mut settings = network_settings();
    settings.audit = None;
    settings.endpoint_pass = None;
    let errs = load_err("windows", settings);
    assert!(errs.contains(&ConfigError::MissingEndpointPassword));
}

#[test]
fn test_new_config_windows_monitor_none() {
    let mut settings = windows_settings();
    settings.monitor = None;
    let errs = load_err("windows", settings);
    assert!(errs.contains(&ConfigError::NoWatchScope));
}

#[test]
fn test_new_config_windows_node_none() {
    let mut settings = windows_settings();
    settings.node = None;
    let config = load("windows", settings);
    assert_eq!(config.node, String::from("hostname-test"));
}

#[test]
fn test_new_config_windows_log_file_none() {
    let mut settings = windows_settings();
    settings.log_file = None;
    let errs = load_err("windows", settings);
    assert!(errs.contains(&ConfigError::MissingLogFile));
}

#[test]
fn test_new_config_windows_log_level_none() {
    let mut settings = windows_settings();
    settings.log_level = None;
    let config = load("windows", settings);
    assert_eq!(config.log_level, "info");
}

#[test]
fn test_new_config_linux_events_destination() {
    let mut settings = linux_settings();
    settings.events_destination = None;
    let config = load("linux", settings);
    assert_eq!(config.events_destination, String::from("file"));
}

#[test]
fn test_new_config_linux_events_file() {
    let mut settings = linux_settings();
    settings.events_file = None;
    let errs = load_err("linux", settings);
    assert!(errs.contains(&ConfigError::MissingEventsFile));
}

#[test]
fn test_new_config_linux_events_destination_network() {
    let mut settings = network_settings();
    settings.events_file = None;
    let config = load("linux", settings);
    assert_eq!(config.events_file, String::from("Not_used"));
}

#[test]
fn test_new_config_linux_events_max_file_checksum() {
    let mut settings = linux_settings();
    settings.events_max_file_checksum = Some(128);
    let config = load("linux", settings);
    assert_eq!(config.events_max_file_checksum, 128);
}

#[test]
fn test_new_config_linux_events_endpoint_insecure() {
    let mut settings = linux_settings();
    settings.insecure = Some(true);
    let config = load("linux", settings);
    assert_eq!(config.insecure, true);
}

#[test]
fn test_new_config_linux_events_endpoint_insecure_none() {
    let config = load("linux", linux_settings());
    assert_eq!(config.insecure, false);
}

#[test]
fn test_new_config_linux_events_destination_network_address() {
    let config = load("linux", network_settings());
    assert_eq!(config.endpoint_address, "0.0.0.0");
}

#[test]
fn test_new_config_linux_events_destination_network_address_none() {
    let mut settings = network_settings();
    settings.endpoint_address = None;
    let errs = load_err("linux", settings);
    assert!(errs.contains(&ConfigError::MissingEndpointAddress));
}

#[test]
fn test_new_config_linux_events_credentials_user() {
    let config = load("linux", network_settings());
    assert_eq!(config.endpoint_user, "test");
}

#[test]
fn test_new_config_linux_events_credentials_user_none() {
    let mut settings = network_settings();
    settings.endpoint_user = None;
    let errs = load_err("linux", settings);
    assert!(errs.contains(&ConfigError::MissingEndpointUser));
}

#[test]
fn test_new_config_linux_events_credentials_password() {
    let config = load("linux", network_settings());
    assert_eq!(config.endpoint_pass, "test");
}

#[test]
fn test_new_config_linux_events_credentials_password_none() {
    let mut settings = network_settings();
    settings.endpoint_pass = None;
    let errs = load_err("linux", settings);
    assert!(errs.contains(&ConfigError::MissingEndpointPassword));
}

#[test]
fn test_new_config_linux_monitor_none() {
    let mut settings = linux_settings();
    settings.monitor = None;
    let config = load("linux", settings);
    assert_eq!(config.monitor.len(), 0);
}

#[test]
fn test_new_config_linux_audit_none() {
    let mut settings = linux_settings();
    settings.audit = None;
    let config = load("linux", settings);
    assert_eq!(config.audit.len(), 0);
}

#[test]
fn test_new_config_linux_audit_and_monitor_none() {
    let mut settings = linux_settings();
    settings.monitor = None;
    settings.audit = None;
    let errs = load_err("linux", settings);
    assert!(errs.contains(&ConfigError::NoWatchScope));
}

#[test]
fn test_new_config_linux_node_none() {
    let mut settings = linux_settings();
    settings.node = None;
    let config = load("linux", settings);
    assert_eq!(config.node, String::from("machine-id-test"));

    let mut settings = linux_settings();
    settings.node = None;
    let config = Config::new(
        "linux",
        String::from("test"),
        settings,
        String::new(),
        String::from("hostname-test"),
    )
    .expect("settings should load");
    assert_eq!(config.node, String::from("hostname-test"));
}

#[test]
fn test_new_config_linux_log_file_none() {
    let mut settings = linux_settings();
    settings.log_file = None;
    let errs = load_err("linux", settings);
    assert!(errs.contains(&ConfigError::MissingLogFile));
}

#[test]
fn test_new_config_linux_log_level_none() {
    let mut settings = linux_settings();
    settings.log_level = None;
    let config = load("linux", settings);
    assert_eq!(config.log_level, "info");
}

#[test]
fn test_new_config_linux() {
    let config = load("linux", linux_settings());
    assert_eq!(config.version, String::from(VERSION));
    assert_eq!(config.events_destination, String::from("file"));
    assert_eq!(config.endpoint_address, String::from("Not_used"));
    assert_eq!(config.endpoint_user, String::from("Not_used"));
    assert_eq!(config.endpoint_pass, String::from("Not_used"));
    assert_eq!(config.events_file, String::from("/var/lib/fim/events.json"));
    assert_eq!(config.node, String::from("FIM"));
    assert_eq!(config.log_file, String::from("/var/log/fim/fim.log"));
    assert_eq!(config.log_level, String::from("info"));
    assert_eq!(config.system, String::from("linux"));
    assert_eq!(config.insecure, false);
}

#[test]
fn test_new_config_macos() {
    let config = load("macos", macos_settings());
    assert_eq!(config.version, String::from(VERSION));
    assert_eq!(config.events_destination, String::from("file"));
    assert_eq!(config.endpoint_address, String::from("Not_used"));
    assert_eq!(config.endpoint_user, String::from("Not_used"));
    assert_eq!(config.endpoint_pass, String::from("Not_used"));
    assert_eq!(config.events_file, String::from("/var/lib/fim/events.json"));
    assert_eq!(config.node, String::from("FIM"));
    assert_eq!(config.log_file, String::from("/var/log/fim/fim.log"));
    assert_eq!(config.log_level, String::from("info"));
    assert_eq!(config.system, String::from("macos"));
    assert_eq!(config.insecure, false);
}

#[test]
fn test_new_config_audit_not_supported() {
    let errs = load_err("macos", linux_settings());
    assert!(errs.contains(&ConfigError::AuditNotSupported));
}

#[test]
fn test_new_config_error_order() {
    let settings = RawSettings {
        events_destination: Some(String::from("network")),
        events_file: None,
        events_max_file_checksum: None,
        insecure: None,
        endpoint_address: None,
        endpoint_user: None,
        endpoint_pass: None,
        monitor: None,
        audit: None,
        node: None,
        log_file: None,
        log_level: None,
    };
    let errs = load_err("linux", settings);
    assert_eq!(
        errs,
        vec![
            ConfigError::MissingEndpointAddress,
            ConfigError::MissingEndpointUser,
            ConfigError::MissingEndpointPassword,
            ConfigError::MissingLogFile,
            ConfigError::NoWatchScope,
        ]
    );
}

#[test]
fn test_get_level_filter_info() {
    let filter = LogLevel::Info;
    assert_eq!(create_test_config("info", "").get_level_filter(), filter);
    assert_eq!(create_test_config("Info", "").get_level_filter(), filter);
    assert_eq!(create_test_config("INFO", "").get_level_filter(), filter);
    assert_eq!(create_test_config("I", "").get_level_filter(), filter);
    assert_eq!(create_test_config("i", "").get_level_filter(), filter);
}

#[test]
fn test_get_level_filter_debug() {
    let filter = LogLevel::Debug;
    assert_eq!(create_test_config("debug", "").get_level_filter(), filter);
    assert_eq!(create_test_config("Debug", "").get_level_filter(), filter);
    assert_eq!(create_test_config("DEBUG", "").get_level_filter(), filter);
    assert_eq!(create_test_config("D", "").get_level_filter(), filter);
    assert_eq!(create_test_config("d", "").get_level_filter(), filter);
}

#[test]
fn test_get_level_filter_error() {
    let filter = LogLevel::Error;
    assert_eq!(create_test_config("error", "").get_level_filter(), filter);
    assert_eq!(create_test_config("Error", "").get_level_filter(), filter);
    assert_eq!(create_test_config("ERROR", "").get_level_filter(), filter);
    assert_eq!(create_test_config("E", "").get_level_filter(), filter);
    assert_eq!(create_test_config("e", "").get_level_filter(), filter);
}

#[test]
fn test_get_level_filter_warning() {
    let filter = LogLevel::Warn;
    assert_eq!(create_test_config("warning", "").get_level_filter(), filter);
    assert_eq!(create_test_config("Warning", "").get_level_filter(), filter);
    assert_eq!(create_test_config("WARNING", "").get_level_filter(), filter);
    assert_eq!(create_test_config("W", "").get_level_filter(), filter);
    assert_eq!(create_test_config("w", "").get_level_filter(), filter);
    assert_eq!(create_test_config("warn", "").get_level_filter(), filter);
    assert_eq!(create_test_config("Warn", "").get_level_filter(), filter);
    assert_eq!(create_test_config("WARN", "").get_level_filter(), filter);
}

#[test]
fn test_get_level_filter_bad() {
    let filter = LogLevel::Info;
    assert_eq!(create_test_config("bad", "").get_level_filter(), filter);
    assert_eq!(create_test_config("BAD", "").get_level_filter(), filter);
    assert_eq!(create_test_config("B", "").get_level_filter(), filter);
    assert_eq!(create_test_config("b", "").get_level_filter(), filter);
    assert_eq!(create_test_config("test", "").get_level_filter(), filter);
    assert_eq!(create_test_config("", "").get_level_filter(), filter);
    assert_eq!(create_test_config("_", "").get_level_filter(), filter);
    assert_eq!(create_test_config("?", "").get_level_filter(), filter);
    assert_eq!(create_test_config("=", "").get_level_filter(), filter);
    assert_eq!(create_test_config("/", "").get_level_filter(), filter);
    assert_eq!(create_test_config(".", "").get_level_filter(), filter);
    assert_eq!(create_test_config(":", "").get_level_filter(), filter);
    assert_eq!(create_test_config(";", "").get_level_filter(), filter);
    assert_eq!(create_test_config("!", "").get_level_filter(), filter);
    assert_eq!(create_test_config("''", "").get_level_filter(), filter);
    assert_eq!(create_test_config("[]", "").get_level_filter(), filter);
}

#[test]
fn test_get_events_destination() {
    assert_eq!(create_test_config("info", "both").get_events_destination(), String::from(BOTH_MODE));
    assert_eq!(
        create_test_config("info", "network").get_events_destination(),
        String::from(NETWORK_MODE)
    );
    assert_eq!(create_test_config("info", "file").get_events_destination(), String::from(FILE_MODE));
    assert_eq!(create_test_config("info", "").get_events_destination(), String::from(FILE_MODE));
    assert_eq!(create_test_config("info", "?").get_events_destination(), String::from(FILE_MODE));
}

#[test]
fn test_path_in() {
    let config = load("linux", linux_settings());
    assert!(config.path_in("/bin/", "", &config.monitor));
    assert!(config.path_in("/bin", "", &config.monitor));
    assert!(config.path_in("/bin/test", "", &config.monitor));
    assert!(!config.path_in("/test", "", &config.monitor));
    assert!(config.path_in("/tmp", "", &config.audit));
    assert!(config.path_in("/tmp/", "", &config.audit));
    assert!(config.path_in("./", "/tmp", &config.audit));
    assert!(config.path_in("./", "/tmp/", &config.audit));
    assert!(!config.path_in("./", "/test", &config.audit));
    assert!(config.path_in("./", "/tmp/test", &config.audit));
}

#[test]
fn test_get_index() {
    let config = load("linux", linux_settings());
    assert_eq!(config.get_index("/bin/", "", &config.monitor), 0);
    assert_eq!(config.get_index("./", "/bin", &config.monitor), 0);
    assert_eq!(config.get_index("/usr/bin/", "", &config.monitor), 1);
    assert_eq!(config.get_index("/etc", "", &config.monitor), 2);
    assert_eq!(config.get_index("/test", "", &config.monitor), usize::MAX);
    assert_eq!(config.get_index("./", "/test", &config.monitor), usize::MAX);
    assert_eq!(config.get_index("/tmp", "", &config.audit), 0);
    assert_eq!(config.get_index("/test", "", &config.audit), usize::MAX);
    assert_eq!(config.get_index("./", "/tmp", &config.audit), 0);
    assert_eq!(config.get_index("./", "/test", &config.audit), usize::MAX);
}

#[test]
fn test_get_labels() {
    let config = load("linux", linux_settings());
    let labels = config.get_labels(1, &config.monitor);
    assert_eq!(labels[0], "usr/bin");
    assert_eq!(labels[1], "linux");

    let labels = config.get_labels(0, &config.audit);
    assert_eq!(labels[0], "tmp");
    assert_eq!(labels[1], "linux");
}

#[test]
fn test_match_ignore() {
    let config = load("linux", linux_settings());
    assert!(config.match_ignore(0, "file.swp", &config.audit));
    assert!(!config.match_ignore(0, "file.txt", &config.audit));
}

#[test]
fn test_get_config_path_unix() {
    let current_dir = "/opt/agent";
    let default_path_linux = format!("{}/config/linux/config.yml", current_dir);
    let default_path_macos = format!("{}/config/macos/config.yml", current_dir);
    assert_eq!(choose_config_path("linux", current_dir, true, false, false), default_path_linux);
    assert_eq!(choose_config_path("macos", current_dir, true, false, false), default_path_macos);
    assert_eq!(
        choose_config_path("linux", current_dir, false, true, false),
        format!("{}/config.yml", current_dir)
    );
    assert_eq!(
        choose_config_path("linux", current_dir, false, false, true),
        format!("{}/../../config/linux/config.yml", current_dir)
    );
    assert_eq!(choose_config_path("linux", current_dir, false, false, false), "/etc/fim/config.yml");
    assert_eq!(
        choose_config_path("macos", current_dir, false, false, false),
        "/Applications/FileMonitor.app/config.yml"
    );
    assert_eq!(
        get_config_path("linux", "/nonexistent-dir-for-config-probe"),
        "/etc/fim/config.yml"
    );
}

#[test]
fn test_get_config_path_windows() {
    let current_dir = "C:\\agent";
    let default_path_windows = format!("{}\\config\\windows\\config.yml", current_dir);
    assert_eq!(choose_config_path("windows", current_dir, true, false, false), default_path_windows);
    assert_eq!(
        choose_config_path("windows", current_dir, false, true, false),
        format!("{}\\config.yml", current_dir)
    );
    assert_eq!(
        choose_config_path("windows", current_dir, false, false, false),
        "C:\\Program Files\\File Integrity Monitor\\config.yml"
    );
}
