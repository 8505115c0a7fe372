use ramon::{
    parse_monitor_config, value_to_string, ConfigValue, EvalError, Event, Monitor, Table,
    UniqueSet, VarValue,
};

const MS100: u64 = 100_000_000;

fn s(x: &str) -> ConfigValue {
    ConfigValue::Str(x.to_string())
}

fn monitor(entries: Vec<(&str, ConfigValue)>, seen: UniqueSet) -> Monitor {
    let keys: Vec<String> = entries.iter().map(|(k, _)| k.to_string()).collect();
    let values: Vec<ConfigValue> = entries.into_iter().map(|(_, v)| v).collect();
    let t = Table { keys: &keys, values: &values };
    let config = parse_monitor_config("test".to_string(), &t).unwrap();
    Monitor::new(config, seen)
}

fn line(l: &str) -> Event {
    Event::NewLogLine(l.to_string())
}

#[test]
fn simple_match_runs_action_with_capture() {
    let mut m = monitor(
        vec![
            ("match_log", s("ERROR (?P<msg>.+)")),
            ("exec", s("echo $msg")),
            ("log", s("/tmp/t1.log")),
        ],
        UniqueSet::new(),
    );
    let o = m.evaluate(line("INFO ok"), 0).unwrap();
    assert!(!o.dispatched);
    assert!(o.command.is_none());
    let o = m.evaluate(line("ERROR boom"), 1).unwrap();
    assert!(o.dispatched);
    let c = o.command.unwrap();
    assert_eq!(c.program, "sh");
    assert_eq!(c.args, vec!["-c".to_string(), "echo $msg".to_string()]);
    assert_eq!(c.env, vec![("msg".to_string(), "boom".to_string())]);
    assert_eq!(m.last_action_time, Some(1));
}

#[test]
fn cooldown_allows_one_dispatch_per_period() {
    let mut m = monitor(
        vec![
            ("cooldown", s("1s")),
            ("match_log", s(".*")),
            ("exec", ConfigValue::Array(vec![s("/bin/true")])),
        ],
        UniqueSet::new(),
    );
    let mut dispatches = 0;
    for i in 0..10u64 {
        if m.evaluate(line("x"), i * 10_000_000).unwrap().dispatched {
            dispatches += 1;
        }
    }
    assert_eq!(dispatches, 1);
    let o = m.evaluate(line("later"), 1_100_000_000).unwrap();
    assert!(o.dispatched);
    let c = o.command.unwrap();
    assert_eq!(c.program, "/bin/true");
    assert!(c.args.is_empty());
}

#[test]
fn unique_values_act_once_across_restarts() {
    let config = || vec![("match_log", s("user=(?P<u>\\w+)")), ("unique", s("u"))];
    let mut m = monitor(config(), UniqueSet::new());
    let mut acted = Vec::new();
    let mut store = Vec::new();
    for (i, l) in ["user=alice", "user=bob", "user=alice"].iter().enumerate() {
        let o = m.evaluate(line(l), i as u64).unwrap();
        if o.dispatched {
            acted.push(l.to_string());
        }
        if o.persist_unique {
            store = m.unique.as_ref().unwrap().seen.render();
        }
    }
    assert_eq!(acted, vec!["user=alice".to_string(), "user=bob".to_string()]);
    let seen = UniqueSet::load(&store).unwrap();
    let mut m = monitor(config(), seen);
    let mut acted = Vec::new();
    for (i, l) in ["user=alice", "user=carol"].iter().enumerate() {
        if m.evaluate(line(l), 100 + i as u64).unwrap().dispatched {
            acted.push(l.to_string());
        }
    }
    assert_eq!(acted, vec!["user=carol".to_string()]);
}

#[test]
fn threshold_fires_from_third_tick_on() {
    let mut m = monitor(
        vec![("every", s("100ms")), ("threshold", s("3/500ms")), ("exec", s("/bin/true"))],
        UniqueSet::new(),
    );
    let mut fired = Vec::new();
    for k in 1..=10u64 {
        if m.evaluate(Event::Tick, k * MS100).unwrap().dispatched {
            fired.push(k);
        }
    }
    assert_eq!(fired, vec![3, 4, 5, 6, 7, 8, 9, 10]);
}

#[test]
fn ignore_pattern_drops_line() {
    let mut m = monitor(
        vec![("match_log", s("ERROR")), ("ignore_log", s("harmless"))],
        UniqueSet::new(),
    );
    assert!(!m.evaluate(line("ERROR harmless"), 0).unwrap().dispatched);
    let o = m.evaluate(line("ERROR real"), 0).unwrap();
    assert!(o.dispatched);
    assert!(o.command.is_none());
}

#[test]
fn file_change_binds_paths() {
    let mut m = monitor(vec![("exec", s("ls $files"))], UniqueSet::new());
    let o = m
        .evaluate(Event::FileChange(vec![b"/a".to_vec(), b"/b".to_vec()]), 0)
        .unwrap();
    let c = o.command.unwrap();
    assert_eq!(c.env, vec![("files".to_string(), "[\"/a\", \"/b\"]".to_string())]);
}

#[test]
fn file_change_with_non_utf8_path_fails() {
    let mut m = monitor(vec![("exec", s("true"))], UniqueSet::new());
    let r = m.evaluate(Event::FileChange(vec![vec![0xff]]), 0);
    assert_eq!(r.unwrap_err(), EvalError::PathNotUtf8);
    assert_eq!(m.last_action_time, None);
}

#[test]
fn value_text_forms() {
    assert_eq!(value_to_string(&VarValue::Text("hi".to_string())), "hi");
    assert_eq!(
        value_to_string(&VarValue::List(vec!["x".to_string()])),
        "[\"x\"]"
    );
}

#[test]
fn cooldown_boundary_is_inclusive() {
    let mut m = monitor(vec![("cooldown", s("1s"))], UniqueSet::new());
    assert!(m.evaluate(Event::Tick, 5).unwrap().dispatched);
    assert!(!m.evaluate(Event::Tick, 999_999_999 + 5).unwrap().dispatched);
    assert!(m.evaluate(Event::Tick, 1_000_000_000 + 5).unwrap().dispatched);
    assert_eq!(m.last_action_time, Some(1_000_000_005));
}

#[test]
fn reads_of_watched_paths_are_filtered() {
    assert!(!ramon::reports_change(ramon::WatchChange::Access));
    assert!(ramon::reports_change(ramon::WatchChange::Other));
}
