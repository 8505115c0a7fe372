//! Runtime engine of a declarative monitoring daemon: log tailing, the
//! per-monitor event pipeline, the unique-value store and configuration
//! validation, with their behaviour stated as contracts.
pub mod action;
pub mod config;
pub mod diagnostic;
pub mod lines;
pub mod monitor;
pub mod pattern;
pub mod tailer;
pub mod threshold;
pub mod unique;

pub use action::{
    build_command, env_of, service_follower, value_to_string, Binding, CommandLine, Exec,
    VarValue,
};
pub use config::{
    parse, parse_monitor_config, parse_notify_config, Config, ConfigError, ConfigValue, ErrorKind,
    MonitorConfig, Notification, NotificationConfig, SmtpConfig, SmtpLogin, Table,
};
pub use monitor::{reports_change, EvalError, Event, Monitor, Outcome, UniqueGate, WatchChange};
pub use pattern::Pattern;
pub use tailer::{ChangeKind, SizeCheck, TailState};
pub use threshold::ThresholdRing;
pub use unique::UniqueSet;
