use ramon::diagnostic::{decimal, readable_syntax_error};
use ramon::{
    parse, parse_monitor_config, parse_notify_config, service_follower, ConfigValue, ErrorKind,
    Exec, Table,
};

fn s(x: &str) -> ConfigValue {
    ConfigValue::Str(x.to_string())
}

fn table(entries: Vec<(&str, ConfigValue)>) -> (Vec<String>, Vec<ConfigValue>) {
    let keys = entries.iter().map(|(k, _)| k.to_string()).collect();
    let values = entries.into_iter().map(|(_, v)| v).collect();
    (keys, values)
}

fn tv(entries: Vec<(&str, ConfigValue)>) -> ConfigValue {
    let (k, v) = table(entries);
    ConfigValue::Table(k, v)
}

#[test]
fn monitor_settings_are_read() {
    let (k, v) = table(vec![
        ("every", s("2s")),
        ("log", s("/var/log/x.log")),
        ("watch", ConfigValue::Array(vec![s("/etc"), s("/srv")])),
        ("cooldown", s("1m")),
        ("unique", s("u")),
        ("threshold", s("10s")),
        ("exec", ConfigValue::Array(vec![s("echo"), ConfigValue::Other("3".to_string())])),
        ("notify", s("Alert")),
    ]);
    let c = parse_monitor_config("m".to_string(), &Table { keys: &k, values: &v }).unwrap();
    assert_eq!(c.name, "m");
    assert_eq!(c.every, Some(2_000_000_000));
    assert_eq!(c.log, Some("/var/log/x.log".to_string()));
    assert_eq!(c.watch, vec!["/etc".to_string(), "/srv".to_string()]);
    assert_eq!(c.cooldown, Some(60_000_000_000));
    assert_eq!(c.unique, Some("u".to_string()));
    assert_eq!(c.threshold, Some((5, 10_000_000_000)));
    assert_eq!(c.action, Some(Exec::Spawn(vec!["echo".to_string(), "3".to_string()])));
    let n = c.notify.unwrap();
    assert_eq!((n.kind.as_str(), n.title.as_str(), n.body.as_str()), ("default", "Alert", ""));
}

#[test]
fn notify_table_defaults() {
    let (k, v) = table(vec![("notify", tv(vec![("body", s("b"))]))]);
    let c = parse_monitor_config("m".to_string(), &Table { keys: &k, values: &v }).unwrap();
    let n = c.notify.unwrap();
    assert_eq!(n.kind, "default");
    assert_eq!(n.title, "Ramon Notification");
    assert_eq!(n.body, "b");
}

fn monitor_error(entries: Vec<(&str, ConfigValue)>) -> (String, ErrorKind) {
    let (k, v) = table(entries);
    let e = parse_monitor_config("m".to_string(), &Table { keys: &k, values: &v }).unwrap_err();
    (e.key, e.kind)
}

#[test]
fn monitor_errors() {
    assert_eq!(monitor_error(vec![("bogus", s("1"))]), ("bogus".to_string(), ErrorKind::UnknownKey));
    assert_eq!(monitor_error(vec![("log", ConfigValue::Other("1".to_string()))]), ("log".to_string(), ErrorKind::WrongType));
    assert_eq!(monitor_error(vec![("exec", ConfigValue::Array(vec![]))]), ("exec".to_string(), ErrorKind::Empty));
    assert_eq!(monitor_error(vec![("threshold", s("5s"))]), ("every".to_string(), ErrorKind::Missing));
    assert!(matches!(monitor_error(vec![("every", s("0s"))]), (k, ErrorKind::Invalid(_)) if k == "every"));
    assert!(matches!(monitor_error(vec![("cooldown", s("soon"))]), (k, ErrorKind::Invalid(_)) if k == "cooldown"));
    assert!(matches!(monitor_error(vec![("match_log", s("(unclosed"))]), (k, ErrorKind::Invalid(_)) if k == "match_log"));
    assert!(matches!(monitor_error(vec![("threshold", s("x/1s"))]), (k, ErrorKind::Invalid(_)) if k == "threshold"));
    assert!(matches!(monitor_error(vec![("threshold", s("1/2/3"))]), (k, ErrorKind::Invalid(_)) if k == "threshold"));
    assert_eq!(monitor_error(vec![("notify", ConfigValue::Array(vec![]))]), ("notify".to_string(), ErrorKind::WrongType));
}

#[test]
fn reserved_keys_are_accepted() {
    let (k, v) = table(vec![("set", s("a")), ("push", s("b"))]);
    assert!(parse_monitor_config("m".to_string(), &Table { keys: &k, values: &v }).is_ok());
}

#[test]
fn smtp_settings_merge_defaults() {
    let (dk, dv) = table(vec![("from", s("Me <me@example.com>")), ("smtp_host", s("smtp.example.com"))]);
    let (k, v) = table(vec![
        ("to", s("you@example.com")),
        ("username", s("me")),
        ("password", s("SECRET-REDACTED")),
    ]);
    let d = Table { keys: &dk, values: &dv };
    let n = parse_notify_config(Some(&d), &Table { keys: &k, values: &v }).unwrap();
    let smtp = n.smtp.unwrap();
    let login = smtp.login.unwrap();
    assert_eq!(login.host, "smtp.example.com");
    assert_eq!(login.username, "me");
    let (k, v) = table(vec![("to", s("you@example.com"))]);
    let e = parse_notify_config(Some(&d), &Table { keys: &k, values: &v }).unwrap_err();
    assert_eq!((e.key.as_str(), e.kind), ("username", ErrorKind::Missing));
    let (k, v) = table(vec![("to", s("x"))]);
    let e = parse_notify_config(None, &Table { keys: &k, values: &v }).unwrap_err();
    assert_eq!((e.key.as_str(), e.kind), ("to", ErrorKind::UnknownKey));
}

#[test]
fn document_needs_monitors() {
    let (k, v) = table(vec![]);
    let e = parse(&Table { keys: &k, values: &v }).unwrap_err();
    assert_eq!((e.key.as_str(), e.kind), ("monitor", ErrorKind::Missing));
    let (k, v) = table(vec![("monitor", tv(vec![("web", tv(vec![("log", s("/l"))])), ("db", tv(vec![]))])), ("var", s("r"))]);
    let c = parse(&Table { keys: &k, values: &v }).unwrap();
    assert_eq!(c.monitors.len(), 2);
    assert_eq!(c.monitors[0].name, "web");
    assert_eq!(c.monitors[1].name, "db");
    assert_eq!(c.notifications.len(), 1);
    assert_eq!(c.notifications[0].0, "default");
    let (k, v) = table(vec![("monitor", tv(vec![("web", tv(vec![("oops", s("/l"))]))]))]);
    let e = parse(&Table { keys: &k, values: &v }).unwrap_err();
    assert_eq!(e.scope, vec!["monitor".to_string(), "web".to_string()]);
    assert_eq!((e.key.as_str(), e.kind), ("oops", ErrorKind::UnknownKey));
}

#[test]
fn notification_channels_in_order_default_last() {
    let (k, v) = table(vec![
        ("monitor", tv(vec![])),
        ("notify", tv(vec![("default", tv(vec![("aggregate", s("5m"))])), ("ops", tv(vec![]))])),
    ]);
    let c = parse(&Table { keys: &k, values: &v }).unwrap();
    let names: Vec<&str> = c.notifications.iter().map(|(n, _)| n.as_str()).collect();
    assert_eq!(names, vec!["ops", "default"]);
    let (k, v) = table(vec![("monitor", tv(vec![])), ("notify", tv(vec![("default", s("x"))]))]);
    let e = parse(&Table { keys: &k, values: &v }).unwrap_err();
    assert_eq!((e.key.as_str(), e.kind), ("default", ErrorKind::WrongType));
}

#[test]
fn journal_follower_command() {
    let c = service_follower(&"nginx".to_string());
    assert_eq!(c.program, "journalctl");
    assert_eq!(c.args, vec!["-n0".to_string(), "-fu".to_string(), "nginx".to_string()]);
}

#[test]
fn syntax_error_points_at_line() {
    let doc = "a = 1\nb = \nc = 2\n".to_string();
    let msg = "expected value".to_string();
    assert_eq!(
        readable_syntax_error(&doc, &msg, Some((10, 11))),
        "expected value\n\n2:\tb = \n\t    ^"
    );
    assert_eq!(readable_syntax_error(&doc, &msg, None), "expected value");
    assert_eq!(readable_syntax_error(&doc, &msg, Some((40, 50))), "expected value\n");
    assert_eq!(decimal(0), "0");
    assert_eq!(decimal(1207), "1207");
}

#[test]
fn invalid_mailbox_is_rejected() {
    let (k, v) = table(vec![("from", s("not a mailbox")), ("to", s("you@example.com"))]);
    let e = parse_notify_config(None, &Table { keys: &k, values: &v }).unwrap_err();
    assert_eq!(e.key, "from");
    assert!(matches!(e.kind, ErrorKind::Invalid(_)));
}

#[test]
fn root_error_names_unknown_key() {
    let (k, v) = table(vec![("monitor", tv(vec![])), ("task", s("t")), ("bogus", s("x"))]);
    let e = parse(&Table { keys: &k, values: &v }).unwrap_err();
    assert!(e.scope.is_empty());
    assert_eq!((e.key.as_str(), e.kind), ("bogus", ErrorKind::UnknownKey));
}

#[test]
fn notify_errors_name_their_channel() {
    let (k, v) = table(vec![
        ("monitor", tv(vec![])),
        ("notify", tv(vec![("ops", tv(vec![("from", s("me@example.com"))]))])),
    ]);
    let e = parse(&Table { keys: &k, values: &v }).unwrap_err();
    assert_eq!(e.scope, vec!["notify".to_string(), "ops".to_string()]);
    assert_eq!((e.key.as_str(), e.kind), ("to", ErrorKind::Missing));
    let (k, v) = table(vec![("monitor", tv(vec![])), ("notify", tv(vec![("ops", s("x"))]))]);
    let e = parse(&Table { keys: &k, values: &v }).unwrap_err();
    assert_eq!(e.scope, vec!["notify".to_string()]);
    assert_eq!((e.key.as_str(), e.kind), ("ops", ErrorKind::WrongType));
    let (k, v) = table(vec![("monitor", tv(vec![])), ("notify", s("x"))]);
    let e = parse(&Table { keys: &k, values: &v }).unwrap_err();
    assert!(e.scope.is_empty());
    assert_eq!((e.key.as_str(), e.kind), ("notify", ErrorKind::WrongType));
}

#[test]
fn monitor_notify_table_error_is_scoped() {
    let (k, v) = table(vec![("notify", tv(vec![("title", ConfigValue::Other("1".to_string()))]))]);
    let e = parse_monitor_config("m".to_string(), &Table { keys: &k, values: &v }).unwrap_err();
    assert_eq!(e.scope, vec!["notify".to_string()]);
    assert_eq!((e.key.as_str(), e.kind), ("title", ErrorKind::WrongType));
}

#[test]
fn without_notify_one_silent_default_channel() {
    let (k, v) = table(vec![("monitor", tv(vec![]))]);
    let c = parse(&Table { keys: &k, values: &v }).unwrap();
    assert_eq!(c.notifications.len(), 1);
    assert_eq!(c.notifications[0].0, "default");
    assert!(c.notifications[0].1.smtp.is_none());
}

#[test]
fn channels_inherit_default_settings() {
    let (k, v) = table(vec![
        ("monitor", tv(vec![])),
        (
            "notify",
            tv(vec![
                ("a", tv(vec![("to", s("a@example.com"))])),
                ("default", tv(vec![("from", s("me@example.com")), ("to", s("d@example.com"))])),
                ("b", tv(vec![])),
            ]),
        ),
    ]);
    let c = parse(&Table { keys: &k, values: &v }).unwrap();
    let names: Vec<&str> = c.notifications.iter().map(|(n, _)| n.as_str()).collect();
    assert_eq!(names, vec!["a", "b", "default"]);
    assert!(c.notifications.iter().all(|(_, n)| n.smtp.is_some()));
    assert_eq!(c.notifications[0].1.smtp.as_ref().unwrap().to.email.to_string(), "a@example.com");
    assert_eq!(c.notifications[1].1.smtp.as_ref().unwrap().to.email.to_string(), "d@example.com");
}

#[test]
fn sub_millisecond_durations_are_kept() {
    let (k, v) = table(vec![("every", s("500us")), ("cooldown", s("250ns")), ("threshold", s("2ms"))]);
    let c = parse_monitor_config("m".to_string(), &Table { keys: &k, values: &v }).unwrap();
    assert_eq!(c.every, Some(500_000));
    assert_eq!(c.cooldown, Some(250));
    assert_eq!(c.threshold, Some((4, 2_000_000)));
}

#[test]
fn duration_arithmetic() {
    assert_eq!(ramon::config::fit_nanos(7), Some(7));
    assert_eq!(ramon::config::fit_nanos(u64::MAX as u128 + 1), None);
    assert_eq!(ramon::config::threshold_count(500, 100), Some(5));
    assert_eq!(ramon::config::threshold_count(99, 100), Some(0));
    assert_eq!(ramon::config::threshold_count(500, 0), None);
}

#[test]
fn counts_read_like_usize_from_str() {
    let count = ramon_count;
    assert_eq!(count("12"), Some(12));
    assert_eq!(count("+7"), Some(7));
    assert_eq!(count("007"), Some(7));
    assert_eq!(count(""), None);
    assert_eq!(count("+"), None);
    assert_eq!(count("-1"), None);
    assert_eq!(count("1x"), None);
    assert_eq!(count(&(usize::MAX as u128 + 1).to_string()), None);
    assert_eq!(count(&usize::MAX.to_string()), Some(usize::MAX));
}

fn ramon_count(s: &str) -> Option<usize> {
    ramon::config::parse_count(&s.to_string())
}
