//! The configuration model: already-typed settings are validated into an
//! immutable `Config`, log levels and event destinations are mapped to their
//! canonical forms, and the configuration file location is chosen.

use vstd::prelude::*;

use crate::scope::{
    clone_rules, contains, is_ignored, labels_for, resolve, rules_view, Rule, RuleView,
    scope_matches, spec_is_ignored,
};
use crate::strutil::str_eq;

verus! {

pub const VERSION: &'static str = "0.4.6";

pub const NETWORK_MODE: &'static str = "NETWORK";

pub const FILE_MODE: &'static str = "FILE";

pub const BOTH_MODE: &'static str = "BOTH";

pub const MACHINE_ID_PATH: &'static str = "/etc/machine-id";

/// The severity filter configured for the process log.
#[derive(Clone, Copy, PartialEq, Eq, Structural, Debug)]
pub enum LogLevel {
    Debug,
    Info,
    Error,
    Warn,
}

/// Where events are delivered: the local file, the remote index, or both.
#[derive(Clone, Copy, PartialEq, Eq, Structural, Debug)]
pub enum Destination {
    File,
    Network,
    Both,
}

/// One reason the configured settings cannot be loaded. Validation collects
/// every reason, not just the first.
#[derive(Clone, Copy, PartialEq, Eq, Structural, Debug)]
pub enum ConfigError {
    MissingEventsFile,
    MissingEndpointAddress,
    MissingEndpointUser,
    MissingEndpointPassword,
    MissingLogFile,
    AuditNotSupported,
    NoWatchScope,
}

/// Configuration values as read from the configuration source, before
/// defaulting and validation: absent fields are `None`.
pub struct RawSettings {
    pub events_destination: Option<String>,
    pub events_file: Option<String>,
    pub events_max_file_checksum: Option<usize>,
    pub insecure: Option<bool>,
    pub endpoint_address: Option<String>,
    pub endpoint_user: Option<String>,
    pub endpoint_pass: Option<String>,
    pub monitor: Option<Vec<Rule>>,
    pub audit: Option<Vec<Rule>>,
    pub node: Option<String>,
    pub log_file: Option<String>,
    pub log_level: Option<String>,
}

/// The validated, immutable configuration of the agent.
#[derive(Debug)]
pub struct Config {
    pub version: String,
    pub path: String,
    pub events_destination: String,
    pub events_max_file_checksum: usize,
    pub endpoint_address: String,
    pub endpoint_user: String,
    pub endpoint_pass: String,
    pub events_file: String,
    pub monitor: Vec<Rule>,
    pub audit: Vec<Rule>,
    pub node: String,
    pub log_file: String,
    pub log_level: String,
    pub system: String,
    pub insecure: bool,
}

/// The mathematical shape of a `Config`.
#[verifier::ext_equal]
pub ghost struct ConfigView {
    pub version: Seq<char>,
    pub path: Seq<char>,
    pub events_destination: Seq<char>,
    pub events_max_file_checksum: usize,
    pub endpoint_address: Seq<char>,
    pub endpoint_user: Seq<char>,
    pub endpoint_pass: Seq<char>,
    pub events_file: Seq<char>,
    pub monitor: Seq<RuleView>,
    pub audit: Seq<RuleView>,
    pub node: Seq<char>,
    pub log_file: Seq<char>,
    pub log_level: Seq<char>,
    pub system: Seq<char>,
    pub insecure: bool,
}

impl View for Config {
    type V = ConfigView;

    open spec fn view(&self) -> ConfigView {
        ConfigView {
            version: self.version@,
            path: self.path@,
            events_destination: self.events_destination@,
            events_max_file_checksum: self.events_max_file_checksum,
            endpoint_address: self.endpoint_address@,
            endpoint_user: self.endpoint_user@,
            endpoint_pass: self.endpoint_pass@,
            events_file: self.events_file@,
            monitor: rules_view(self.monitor@),
            audit: rules_view(self.audit@),
            node: self.node@,
            log_file: self.log_file@,
            log_level: self.log_level@,
            system: self.system@,
            insecure: self.insecure,
        }
    }
}

/// The destination after defaulting: the configured value, or `file`.
pub open spec fn spec_dest(settings: RawSettings) -> Seq<char> {
    match settings.events_destination {
        Some(d) => d@,
        None => "file"@,
    }
}

/// An events file is required unless events go only to the network.
pub open spec fn missing_events_file(settings: RawSettings) -> bool {
    settings.events_file is None && spec_dest(settings) != "network"@
}

/// An endpoint address is required unless events go only to the file.
pub open spec fn missing_endpoint_address(settings: RawSettings) -> bool {
    settings.endpoint_address is None && spec_dest(settings) != "file"@
}

/// An endpoint user is required unless events go only to the file.
pub open spec fn missing_endpoint_user(settings: RawSettings) -> bool {
    settings.endpoint_user is None && spec_dest(settings) != "file"@
}

/// An endpoint password is required unless events go only to the file.
pub open spec fn missing_endpoint_password(settings: RawSettings) -> bool {
    settings.endpoint_pass is None && spec_dest(settings) != "file"@
}

/// A log file is always required.
pub open spec fn missing_log_file(settings: RawSettings) -> bool {
    settings.log_file is None
}

/// Audit rules are only supported on Linux.
pub open spec fn audit_unsupported(settings: RawSettings, system: Seq<char>) -> bool {
    settings.audit is Some && system != "linux"@
}

/// At least one of the monitor and audit rule sets must be non-empty.
pub open spec fn no_watch_scope(settings: RawSettings) -> bool {
    (match settings.monitor {
        Some(m) => m@.len() == 0,
        None => true,
    }) && (match settings.audit {
        Some(a) => a@.len() == 0,
        None => true,
    })
}

/// True when the settings validate with no error.
pub open spec fn settings_ok(settings: RawSettings, system: Seq<char>) -> bool {
    !missing_events_file(settings) && !missing_endpoint_address(settings)
        && !missing_endpoint_user(settings) && !missing_endpoint_password(settings)
        && !missing_log_file(settings) && !audit_unsupported(settings, system)
        && !no_watch_scope(settings)
}

pub open spec fn push_if(s: Seq<ConfigError>, cond: bool, e: ConfigError) -> Seq<ConfigError> {
    if cond {
        s.push(e)
    } else {
        s
    }
}

/// Every validation error of the settings, in a fixed report order.
pub open spec fn spec_error_list(settings: RawSettings, system: Seq<char>) -> Seq<ConfigError> {
    let s = Seq::<ConfigError>::empty();
    let s = push_if(s, missing_events_file(settings), ConfigError::MissingEventsFile);
    let s = push_if(s, missing_endpoint_address(settings), ConfigError::MissingEndpointAddress);
    let s = push_if(s, missing_endpoint_user(settings), ConfigError::MissingEndpointUser);
    let s = push_if(s, missing_endpoint_password(settings), ConfigError::MissingEndpointPassword);
    let s = push_if(s, missing_log_file(settings), ConfigError::MissingLogFile);
    let s = push_if(s, audit_unsupported(settings, system), ConfigError::AuditNotSupported);
    push_if(s, no_watch_scope(settings), ConfigError::NoWatchScope)
}

/// The node name after defaulting: the configured value; otherwise, on Linux
/// and macOS, the machine id when it is non-empty and the hostname when it
/// is; otherwise the hostname.
pub open spec fn spec_node(
    settings: RawSettings,
    system: Seq<char>,
    machine_id: Seq<char>,
    hostname: Seq<char>,
) -> Seq<char> {
    match settings.node {
        Some(n) => n@,
        None => if system == "linux"@ || system == "macos"@ {
            if machine_id.len() == 0 {
                hostname
            } else {
                machine_id
            }
        } else {
            hostname
        },
    }
}

/// The log level named by a configured string; any unrecognized value
/// falls back to `Info`.
pub open spec fn spec_level_of(s: Seq<char>) -> LogLevel {
    if s == "debug"@ || s == "Debug"@ || s == "DEBUG"@ || s == "D"@ || s == "d"@ {
        LogLevel::Debug
    } else if s == "info"@ || s == "Info"@ || s == "INFO"@ || s == "I"@ || s == "i"@ {
        LogLevel::Info
    } else if s == "error"@ || s == "Error"@ || s == "ERROR"@ || s == "E"@ || s == "e"@ {
        LogLevel::Error
    } else if s == "warning"@ || s == "Warning"@ || s == "WARNING"@ || s == "W"@ || s == "w"@
        || s == "warn"@ || s == "Warn"@ || s == "WARN"@ {
        LogLevel::Warn
    } else {
        LogLevel::Info
    }
}

/// The canonical name of the destination a configured string selects; any
/// unrecognized value falls back to the file destination.
pub open spec fn spec_destination_name(d: Seq<char>) -> Seq<char> {
    if d == "both"@ {
        "BOTH"@
    } else if d == "network"@ {
        "NETWORK"@
    } else {
        "FILE"@
    }
}

/// The destination a configured string selects.
pub open spec fn spec_destination_mode(d: Seq<char>) -> Destination {
    if d == "both"@ {
        Destination::Both
    } else if d == "network"@ {
        Destination::Network
    } else {
        Destination::File
    }
}

/// Collects every validation error of the settings, in the order of
/// `spec_error_list`.
#[verifier::rlimit(60)]
pub fn validate_settings(settings: &RawSettings, system: &str) -> (errs: Vec<ConfigError>)
    ensures
        errs@ == spec_error_list(*settings, system@),
        errs@.len() == 0 <==> settings_ok(*settings, system@),
{
    proof {
        reveal_strlit("file");
        reveal_strlit("network");
    }
    let dest: String = match &settings.events_destination {
        Some(d) => d.clone(),
        None => String::from_str("file"),
    };
    proof {
        assert(dest@ == spec_dest(*settings));
    }
    let dest_is_network = str_eq(dest.as_str(), "network");
    let dest_is_file = str_eq(dest.as_str(), "file");
    let ghost s0 = Seq::<ConfigError>::empty();
    let ghost s1 = push_if(s0, missing_events_file(*settings), ConfigError::MissingEventsFile);
    let ghost s2 = push_if(
        s1,
        missing_endpoint_address(*settings),
        ConfigError::MissingEndpointAddress,
    );
    let ghost s3 = push_if(s2, missing_endpoint_user(*settings), ConfigError::MissingEndpointUser);
    let ghost s4 = push_if(
        s3,
        missing_endpoint_password(*settings),
        ConfigError::MissingEndpointPassword,
    );
    let ghost s5 = push_if(s4, missing_log_file(*settings), ConfigError::MissingLogFile);
    let ghost s6 = push_if(
        s5,
        audit_unsupported(*settings, system@),
        ConfigError::AuditNotSupported,
    );
    let ghost s7 = push_if(s6, no_watch_scope(*settings), ConfigError::NoWatchScope);

    let mut errs: Vec<ConfigError> = Vec::new();
    if settings.events_file.is_none() && !dest_is_network {
        errs.push(ConfigError::MissingEventsFile);
    }
    proof {
        assert(errs@ == s1);
    }
    if settings.endpoint_address.is_none() && !dest_is_file {
        errs.push(ConfigError::MissingEndpointAddress);
    }
    proof {
        assert(errs@ == s2);
    }
    if settings.endpoint_user.is_none() && !dest_is_file {
        errs.push(ConfigError::MissingEndpointUser);
    }
    proof {
        assert(errs@ == s3);
    }
    if settings.endpoint_pass.is_none() && !dest_is_file {
        errs.push(ConfigError::MissingEndpointPassword);
    }
    proof {
        assert(errs@ == s4);
    }
    if settings.log_file.is_none() {
        errs.push(ConfigError::MissingLogFile);
    }
    proof {
        assert(errs@ == s5);
    }
    if settings.audit.is_some() && !str_eq(system, "linux") {
        errs.push(ConfigError::AuditNotSupported);
    }
    proof {
        assert(errs@ == s6);
    }
    let monitor_empty = match &settings.monitor {
        Some(m) => m.len() == 0,
        None => true,
    };
    let audit_empty = match &settings.audit {
        Some(a) => a.len() == 0,
        None => true,
    };
    if monitor_empty && audit_empty {
        errs.push(ConfigError::NoWatchScope);
    }
    proof {
        assert(errs@ == s7);
        assert(errs@ == spec_error_list(*settings, system@));
    }
    errs
}

impl Config {
    /// Validates already-typed settings into a `Config`, applying the
    /// documented defaults. Every validation error is collected; the
    /// settings load if and only if there is none.
    #[verifier::rlimit(60)]
    pub fn new(
        system: &str,
        path: String,
        settings: RawSettings,
        machine_id: String,
        hostname: String,
    ) -> (r: Result<Config, Vec<ConfigError>>)
        ensures
            r is Ok <==> settings_ok(settings, system@),
            r matches Ok(c) ==> c@.version == VERSION@ && c@.path == path@
                && c@.events_destination == spec_dest(settings) && c@.events_max_file_checksum == (
            match settings.events_max_file_checksum {
                Some(v) => v,
                None => 64,
            }) && c@.endpoint_address == (match settings.endpoint_address {
                Some(a) => a@,
                None => "Not_used"@,
            }) && c@.endpoint_user == (match settings.endpoint_user {
                Some(u) => u@,
                None => "Not_used"@,
            }) && c@.endpoint_pass == (match settings.endpoint_pass {
                Some(p) => p@,
                None => "Not_used"@,
            }) && c@.events_file == (match settings.events_file {
                Some(f) => f@,
                None => "Not_used"@,
            }) && c@.monitor == (match settings.monitor {
                Some(m) => rules_view(m@),
                None => Seq::<RuleView>::empty(),
            }) && c@.audit == (match settings.audit {
                Some(a) => rules_view(a@),
                None => Seq::<RuleView>::empty(),
            }) && c@.node == spec_node(settings, system@, machine_id@, hostname@) && (
            match settings.log_file {
                Some(f) => c@.log_file == f@,
                None => false,
            }) && c@.log_level == (match settings.log_level {
                Some(l) => l@,
                None => "info"@,
            }) && c@.system == system@ && c@.insecure == (match settings.insecure {
                Some(b) => b,
                None => false,
            }),
            r matches Err(e) ==> e@ == spec_error_list(settings, system@),
    {
        let errs = validate_settings(&settings, system);
        if errs.len() > 0 {
            return Err(errs);
        }

        let RawSettings {
            events_destination,
            events_file,
            events_max_file_checksum,
            insecure,
            endpoint_address,
            endpoint_user,
            endpoint_pass,
            monitor,
            audit,
            node,
            log_file,
            log_level,
        } = settings;

        let dest: String = match events_destination {
            Some(v) => v,
            None => String::from_str("file"),
        };
        let events_file_val: String = match events_file {
            Some(v) => v,
            None => String::from_str("Not_used"),
        };
        let max_checksum: usize = match events_max_file_checksum {
            Some(v) => v,
            None => 64,
        };
        let insecure_val: bool = match insecure {
            Some(b) => b,
            None => false,
        };
        let address: String = match endpoint_address {
            Some(v) => v,
            None => String::from_str("Not_used"),
        };
        let user: String = match endpoint_user {
            Some(v) => v,
            None => String::from_str("Not_used"),
        };
        let pass: String = match endpoint_pass {
            Some(v) => v,
            None => String::from_str("Not_used"),
        };
        let log_file_val: String = match log_file {
            Some(v) => v,
            None => String::new(),
        };
        let monitor_rules: Vec<Rule> = match monitor {
            Some(m) => m,
            None => Vec::new(),
        };
        let audit_rules: Vec<Rule> = match audit {
            Some(a) => a,
            None => Vec::new(),
        };
        let node_val: String = match node {
            Some(n) => n,
            None => {
                if str_eq(system, "linux") || str_eq(system, "macos") {
                    if machine_id.as_str().unicode_len() == 0 {
                        hostname
                    } else {
                        machine_id
                    }
                } else {
                    hostname
                }
            },
        };
        let log_level_val: String = match log_level {
            Some(v) => v,
            None => String::from_str("info"),
        };

        Ok(
            Config {
                version: String::from_str(VERSION),
                path,
                events_destination: dest,
                events_max_file_checksum: max_checksum,
                endpoint_address: address,
                endpoint_user: user,
                endpoint_pass: pass,
                events_file: events_file_val,
                monitor: monitor_rules,
                audit: audit_rules,
                node: node_val,
                log_file: log_file_val,
                log_level: log_level_val,
                system: String::from_str(system),
                insecure: insecure_val,
            },
        )
    }

    /// A copy of the configuration, field for field.
    pub fn clone(&self) -> (r: Self)
        ensures
            r@ == self@,
    {
        let r = Config {
            version: self.version.clone(),
            path: self.path.clone(),
            events_destination: self.events_destination.clone(),
            events_max_file_checksum: self.events_max_file_checksum,
            endpoint_address: self.endpoint_address.clone(),
            endpoint_user: self.endpoint_user.clone(),
            endpoint_pass: self.endpoint_pass.clone(),
            events_file: self.events_file.clone(),
            monitor: clone_rules(&self.monitor),
            audit: clone_rules(&self.audit),
            node: self.node.clone(),
            log_file: self.log_file.clone(),
            log_level: self.log_level.clone(),
            system: self.system.clone(),
            insecure: self.insecure,
        };
        proof {
            assert(r@ =~= self@);
        }
        r
    }

    /// The log level selected by the configured `log_level` string.
    pub fn get_level_filter(&self) -> (r: LogLevel)
        ensures
            r == spec_level_of(self.log_level@),
    {
        let s = self.log_level.as_str();
        if str_eq(s, "debug") || str_eq(s, "Debug") || str_eq(s, "DEBUG") || str_eq(s, "D")
            || str_eq(s, "d") {
            LogLevel::Debug
        } else if str_eq(s, "info") || str_eq(s, "Info") || str_eq(s, "INFO") || str_eq(s, "I")
            || str_eq(s, "i") {
            LogLevel::Info
        } else if str_eq(s, "error") || str_eq(s, "Error") || str_eq(s, "ERROR") || str_eq(s, "E")
            || str_eq(s, "e") {
            LogLevel::Error
        } else if str_eq(s, "warning") || str_eq(s, "Warning") || str_eq(s, "WARNING") || str_eq(
            s,
            "W",
        ) || str_eq(s, "w") || str_eq(s, "warn") || str_eq(s, "Warn") || str_eq(s, "WARN") {
            LogLevel::Warn
        } else {
            LogLevel::Info
        }
    }

    /// The canonical name of the configured events destination.
    pub fn get_events_destination(&self) -> (r: String)
        ensures
            r@ == spec_destination_name(self.events_destination@),
    {
        let d = self.events_destination.as_str();
        if str_eq(d, "both") {
            String::from_str(BOTH_MODE)
        } else if str_eq(d, "network") {
            String::from_str(NETWORK_MODE)
        } else {
            String::from_str(FILE_MODE)
        }
    }

    /// The configured events destination as a `Destination`.
    pub fn destination_mode(&self) -> (r: Destination)
        ensures
            r == spec_destination_mode(self.events_destination@),
    {
        let d = self.events_destination.as_str();
        if str_eq(d, "both") {
            Destination::Both
        } else if str_eq(d, "network") {
            Destination::Network
        } else {
            Destination::File
        }
    }

    /// The position of the first rule of `rules` that covers the
    /// notification, or `usize::MAX` when none does.
    pub fn get_index(&self, raw_path: &str, cwd: &str, rules: &Vec<Rule>) -> (r: usize)
        requires
            rules@.len() < usize::MAX,
        ensures
            r == usize::MAX ==> forall|i: int|
                0 <= i < rules@.len() ==> !scope_matches(
                    #[trigger] rules_view(rules@)[i],
                    raw_path@,
                    cwd@,
                ),
            r != usize::MAX ==> r < rules@.len() && scope_matches(
                rules_view(rules@)[r as int],
                raw_path@,
                cwd@,
            ) && forall|j: int|
                0 <= j < r ==> !scope_matches(#[trigger] rules_view(rules@)[j], raw_path@, cwd@),
    {
        resolve(raw_path, cwd, rules)
    }

    /// The labels of the rule at `index`, copied.
    pub fn get_labels(&self, index: usize, rules: &Vec<Rule>) -> (out: Vec<String>)
        requires
            index < rules@.len(),
        ensures
            out@ == rules@[index as int].labels@,
    {
        labels_for(index, rules)
    }

    /// True when `filename` contains any ignore pattern of the rule at
    /// `index` as a literal substring.
    pub fn match_ignore(&self, index: usize, filename: &str, rules: &Vec<Rule>) -> (b: bool)
        requires
            index < rules@.len(),
        ensures
            b == spec_is_ignored(rules_view(rules@)[index as int], filename@),
    {
        is_ignored(index, filename, rules)
    }

    /// True when some rule of `rules` covers the notification.
    pub fn path_in(&self, raw_path: &str, cwd: &str, rules: &Vec<Rule>) -> (b: bool)
        requires
            rules@.len() < usize::MAX,
        ensures
            b == exists|i: int|
                0 <= i < rules@.len() && scope_matches(
                    #[trigger] rules_view(rules@)[i],
                    raw_path@,
                    cwd@,
                ),
    {
        contains(raw_path, cwd, rules)
    }
}

/// The configuration file location chosen from which candidates exist: the
/// per-system default below the working directory, then a `config.yml`
/// beside the binary, then the relative fallback, then the installed
/// location for the system.
pub open spec fn spec_choose_config_path(
    system: Seq<char>,
    current_dir: Seq<char>,
    default_exists: bool,
    local_exists: bool,
    relative_exists: bool,
) -> Seq<char> {
    if system == "windows"@ {
        if default_exists {
            current_dir + "\\config\\"@ + system + "\\config.yml"@
        } else if local_exists {
            current_dir + "\\config.yml"@
        } else if relative_exists {
            current_dir + "\\..\\..\\config\\"@ + system + "\\config.yml"@
        } else {
            "C:\\Program Files\\File Integrity Monitor\\config.yml"@
        }
    } else {
        if default_exists {
            current_dir + "/config/"@ + system + "/config.yml"@
        } else if local_exists {
            current_dir + "/config.yml"@
        } else if relative_exists {
            current_dir + "/../../config/"@ + system + "/config.yml"@
        } else if system == "macos"@ {
            "/Applications/FileMonitor.app/config.yml"@
        } else {
            "/etc/fim/config.yml"@
        }
    }
}

/// The configuration file location for the given candidate-existence
/// answers, as `spec_choose_config_path`.
pub fn choose_config_path(
    system: &str,
    current_dir: &str,
    default_exists: bool,
    local_exists: bool,
    relative_exists: bool,
) -> (r: String)
    ensures
        r@ == spec_choose_config_path(
            system@,
            current_dir@,
            default_exists,
            local_exists,
            relative_exists,
        ),
{
    if str_eq(system, "windows") {
        if default_exists {
            String::from_str(current_dir).concat("\\config\\").concat(system).concat("\\config.yml")
        } else if local_exists {
            String::from_str(current_dir).concat("\\config.yml")
        } else if relative_exists {
            String::from_str(current_dir).concat("\\..\\..\\config\\").concat(system).concat(
                "\\config.yml",
            )
        } else {
            String::from_str("C:\\Program Files\\File Integrity Monitor\\config.yml")
        }
    } else {
        if default_exists {
            String::from_str(current_dir).concat("/config/").concat(system).concat("/config.yml")
        } else if local_exists {
            String::from_str(current_dir).concat("/config.yml")
        } else if relative_exists {
            String::from_str(current_dir).concat("/../../config/").concat(system).concat(
                "/config.yml",
            )
        } else if str_eq(system, "macos") {
            String::from_str("/Applications/FileMonitor.app/config.yml")
        } else {
            String::from_str("/etc/fim/config.yml")
        }
    }
}

/// Relies on `std::path::Path::exists`: queries the filesystem for whether
/// the path can be reached. The answer depends on the machine's disk, so
/// nothing is promised of it.
#[verifier::external_body]
fn path_exists(p: &str) -> bool {
    std::path::Path::new(p).exists()
}

/// The configuration file location, probing the filesystem for each
/// candidate in order. The result is the choice of `spec_choose_config_path`
/// for the candidate-existence answers the filesystem gave.
pub fn get_config_path(system: &str, current_dir: &str) -> (r: String)
    ensures
        exists|d: bool, l: bool, e: bool|
            r@ == spec_choose_config_path(system@, current_dir@, d, l, e),
{
    if str_eq(system, "windows") {
        let default_path = String::from_str(current_dir).concat("\\config\\").concat(
            system,
        ).concat("\\config.yml");
        if path_exists(default_path.as_str()) {
            proof {
                assert(default_path@ == spec_choose_config_path(
                    system@,
                    current_dir@,
                    true,
                    false,
                    false,
                ));
            }
            return default_path;
        }
        let local_path = String::from_str(current_dir).concat("\\config.yml");
        if path_exists(local_path.as_str()) {
            proof {
                assert(local_path@ == spec_choose_config_path(
                    system@,
                    current_dir@,
                    false,
                    true,
                    false,
                ));
            }
            return local_path;
        }
        let relative_path = String::from_str(current_dir).concat("\\..\\..\\config\\").concat(
            system,
        ).concat("\\config.yml");
        let relative_found = path_exists(relative_path.as_str());
        let r = choose_config_path(system, current_dir, false, false, relative_found);
        r
    } else {
        let default_path = String::from_str(current_dir).concat("/config/").concat(system).concat(
            "/config.yml",
        );
        if path_exists(default_path.as_str()) {
            proof {
                assert(default_path@ == spec_choose_config_path(
                    system@,
                    current_dir@,
                    true,
                    false,
                    false,
                ));
            }
            return default_path;
        }
        let local_path = String::from_str(current_dir).concat("/config.yml");
        if path_exists(local_path.as_str()) {
            proof {
                assert(local_path@ == spec_choose_config_path(
                    system@,
                    current_dir@,
                    false,
                    true,
                    false,
                ));
            }
            return local_path;
        }
        let relative_path = String::from_str(current_dir).concat("/../../config/").concat(
            system,
        ).concat("/config.yml");
        let relative_found = path_exists(relative_path.as_str());
        let r = choose_config_path(system, current_dir, false, false, relative_found);
        r
    }
}

} // verus!
