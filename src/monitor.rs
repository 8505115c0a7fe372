use crate::action::{
    bindings_view, build_command, command_spec, env_of, env_spec, Binding, CommandLine, Exec,
    ValueView, VarValue,
};
use crate::lines::{decode_lines, decoded_lines};
use crate::pattern::{opt_views, regex_captures, regex_group_names, regex_is_match, Pattern};
use crate::config::MonitorConfig;
use crate::threshold::{elapsed, fires_spec, record_spec, ThresholdRing};
use crate::unique::{views, UniqueSet};
use vstd::prelude::*;
use vstd::string::*;

verus! {

/// Something a monitor's sources observed.
#[derive(Debug)]
pub enum Event {
    /// The monitor's period elapsed.
    Tick,
    /// A line was appended to a watched log or service journal.
    NewLogLine(String),
    /// Watched paths changed; each path is given by its bytes.
    FileChange(Vec<Vec<u8>>),
}

/// The mathematical value of an `Event`.
pub enum EventView {
    Tick,
    Line(Seq<char>),
    Files(Seq<Seq<u8>>),
}

impl View for Event {
    type V = EventView;

    open spec fn view(&self) -> EventView {
        match self {
            Event::Tick => EventView::Tick,
            Event::NewLogLine(l) => EventView::Line(l@),
            Event::FileChange(p) => EventView::Files(p@.map_values(|v: Vec<u8>| v@)),
        }
    }
}

/// What a notification on a watched path reports.
#[derive(Clone, Copy, Debug, PartialEq, Eq, Structural)]
pub enum WatchChange {
    /// The path was only read.
    Access,
    /// Anything else: created, modified, removed, renamed.
    Other,
}

/// Whether a notification on a watched path becomes a `FileChange` event:
/// reads are filtered out.
pub fn reports_change(kind: WatchChange) -> (r: bool)
    ensures
        r == (kind == WatchChange::Other),
{
    match kind {
        WatchChange::Access => false,
        WatchChange::Other => true,
    }
}

/// The bindings that the named groups of a match give: one per group that
/// has a name and took part in the match, in group order, among the first
/// `n` groups.
pub open spec fn named_spec(
    names: Seq<Option<Seq<char>>>,
    groups: Seq<Option<Seq<char>>>,
    n: nat,
) -> Seq<(Seq<char>, ValueView)>
    decreases n,
{
    if n == 0 {
        Seq::empty()
    } else {
        let rest = named_spec(names, groups, (n - 1) as nat);
        let i = n - 1;
        if i < names.len() && i < groups.len() && names[i] is Some && groups[i] is Some {
            rest.push((names[i]->0, ValueView::Text(groups[i]->0)))
        } else {
            rest
        }
    }
}

/// Binds each named group that took part in a match to its text.
pub fn named_captures(names: &Vec<Option<String>>, groups: &Vec<Option<String>>) -> (r: Vec<
    Binding,
>)
    ensures
        bindings_view(r@) == named_spec(opt_views(names@), opt_views(groups@), names@.len() as nat),
{
    let mut out: Vec<Binding> = Vec::new();
    let mut i: usize = 0;
    while i < names.len()
        invariant
            i <= names.len(),
            bindings_view(out@) == named_spec(opt_views(names@), opt_views(groups@), i as nat),
        decreases names.len() - i,
    {
        let ghost before = out@;
        if i < groups.len() {
            match (&names[i], &groups[i]) {
                (Some(n), Some(g)) => {
                    out.push(Binding { name: n.clone(), value: VarValue::Text(g.clone()) });
                    assert(bindings_view(out@) =~= bindings_view(before).push(
                        (n@, ValueView::Text(g@)),
                    ));
                },
                _ => {},
            }
        }
        i = i + 1;
    }
    out
}

/// The bindings of a log line: none to make without a match pattern; those
/// of the match with one, or `None` when it does not match.
pub open spec fn line_bindings(log: Option<Seq<char>>, line: Seq<char>) -> Option<
    Seq<(Seq<char>, ValueView)>,
> {
    match log {
        None => Some(Seq::empty()),
        Some(src) => match regex_captures(src, line) {
            None => None,
            Some(g) => Some(named_spec(regex_group_names(src), g, regex_group_names(src).len())),
        },
    }
}

/// The name that the paths of a file change are bound to.
pub open spec fn files_name() -> Seq<char> {
    seq!['f', 'i', 'l', 'e', 's']
}

/// The variables an event binds: `Err` when a changed path is not UTF-8,
/// `Ok(None)` when the event is dropped (no match, or the ignore pattern
/// matches).
pub open spec fn extract_spec(
    log: Option<Seq<char>>,
    ignore: Option<Seq<char>>,
    ev: EventView,
) -> Result<Option<Seq<(Seq<char>, ValueView)>>, ()> {
    match ev {
        EventView::Tick => Ok(Some(Seq::empty())),
        EventView::Line(l) => match line_bindings(log, l) {
            None => Ok(None),
            Some(b) => if ignore is Some && regex_is_match(ignore->0, l) {
                Ok(None)
            } else {
                Ok(Some(b))
            },
        },
        EventView::Files(ps) => match decoded_lines(ps) {
            None => Err(()),
            Some(ds) => Ok(Some(seq![(files_name(), ValueView::List(ds))])),
        },
    }
}

/// The text bound to `name` by the first binding of that name, when it is a
/// text.
pub open spec fn lookup_text(b: Seq<(Seq<char>, ValueView)>, name: Seq<char>) -> Option<Seq<char>>
    decreases b.len(),
{
    if b.len() == 0 {
        None
    } else if b[0].0 == name {
        match b[0].1 {
            ValueView::Text(t) => Some(t),
            ValueView::List(_) => None,
        }
    } else {
        lookup_text(b.drop_first(), name)
    }
}

/// Finds the text bound to `name`.
pub fn find_text(b: &Vec<Binding>, name: &String) -> (r: Option<String>)
    ensures
        match r {
            Some(t) => lookup_text(bindings_view(b@), name@) == Some(t@),
            None => lookup_text(bindings_view(b@), name@) is None,
        },
{
    let ghost bv = bindings_view(b@);
    let mut i: usize = 0;
    assert(bv.subrange(0, bv.len() as int) =~= bv);
    while i < b.len()
        invariant
            i <= b.len(),
            bv == bindings_view(b@),
            lookup_text(bv, name@) == lookup_text(bv.subrange(i as int, bv.len() as int), name@),
        decreases b.len() - i,
    {
        let ghost rest = bv.subrange(i as int, bv.len() as int);
        assert(rest.drop_first() =~= bv.subrange(i as int + 1, bv.len() as int));
        assert(rest[0] == b@[i as int]@);
        if b[i].name == *name {
            return match &b[i].value {
                VarValue::Text(t) => Some(t.clone()),
                VarValue::List(_) => None,
            };
        }
        i = i + 1;
    }
    None
}

/// The bindings that `p` gives `line`, or `None` when it does not match.
pub fn capture_bindings(p: &Pattern, line: &String) -> (r: Option<Vec<Binding>>)
    ensures
        match r {
            Some(b) => line_bindings(Some(p.source()), line@) == Some(bindings_view(b@)),
            None => line_bindings(Some(p.source()), line@) is None,
        },
{
    match p.captures(line) {
        None => None,
        Some(groups) => {
            let names = p.group_names();
            Some(named_captures(&names, &groups))
        },
    }
}

/// The value-uniqueness gate: the capture it keys on and the values seen.
#[derive(Debug)]
pub struct UniqueGate {
    pub variable: String,
    pub seen: UniqueSet,
}

/// What evaluating one event led to.
#[derive(Debug)]
pub struct Outcome {
    /// The set of unique values grew and should be written to its store.
    pub persist_unique: bool,
    /// The action was dispatched.
    pub dispatched: bool,
    /// The process to start for the dispatch, if the monitor has one.
    pub command: Option<CommandLine>,
}

impl Outcome {
    pub open spec fn is_quiet(&self) -> bool {
        !self.persist_unique && !self.dispatched && self.command is None
    }

    fn quiet() -> (r: Outcome)
        ensures
            r.is_quiet(),
    {
        Outcome { persist_unique: false, dispatched: false, command: None }
    }
}

/// Why an event could not be evaluated.
#[derive(Clone, Copy, Debug, PartialEq, Eq, Structural)]
pub enum EvalError {
    /// A changed path is not UTF-8.
    PathNotUtf8,
}

/// One monitor's predicate state: its settings and what it has seen. Times
/// are nanoseconds on a monotonic clock.
#[derive(Debug)]
pub struct Monitor {
    pub name: String,
    pub cooldown: Option<u64>,
    pub log_regex: Option<Pattern>,
    pub ignore_regex: Option<Pattern>,
    pub unique: Option<UniqueGate>,
    pub threshold: Option<ThresholdRing>,
    pub action: Option<Exec>,
    pub last_action_time: Option<u64>,
}

impl Monitor {
    /// The predicate state of a monitor that starts with the validated
    /// settings `config`, having seen `seen` on earlier runs.
    pub fn new(config: MonitorConfig, seen: UniqueSet) -> (r: Monitor)
        requires
            seen.wf(),
        ensures
            r.wf(),
            r.name == config.name,
            r.cooldown == config.cooldown,
            r.log_regex == config.match_log,
            r.ignore_regex == config.ignore_log,
            r.action == config.action,
            r.last_action_time is None,
            match config.unique {
                Some(v) => r.unique matches Some(u) && u.variable == v && u.seen == seen,
                None => r.unique is None,
            },
            match config.threshold {
                Some((n, w)) => r.threshold matches Some(t) && t.capacity == n && t.window == w
                    && t.recorded() == Seq::<u64>::empty(),
                None => r.threshold is None,
            },
    {
        let unique = match config.unique {
            Some(variable) => Some(UniqueGate { variable, seen }),
            None => None,
        };
        let threshold = match config.threshold {
            Some((n, w)) => Some(ThresholdRing::new(n, w)),
            None => None,
        };
        Monitor {
            name: config.name,
            cooldown: config.cooldown,
            log_regex: config.match_log,
            ignore_regex: config.ignore_log,
            unique,
            threshold,
            action: config.action,
            last_action_time: None,
        }
    }

    pub open spec fn wf(&self) -> bool {
        &&& (self.unique matches Some(u) ==> u.seen.wf())
        &&& (self.threshold matches Some(t) ==> t.wf())
    }

    pub open spec fn cooling(&self, now: u64) -> bool {
        &&& self.cooldown is Some
        &&& self.last_action_time is Some
        &&& elapsed(self.last_action_time->0, now) < self.cooldown->0
    }

    pub open spec fn log_source(&self) -> Option<Seq<char>> {
        match self.log_regex {
            Some(p) => Some(p.source()),
            None => None,
        }
    }

    pub open spec fn ignore_source(&self) -> Option<Seq<char>> {
        match self.ignore_regex {
            Some(p) => Some(p.source()),
            None => None,
        }
    }

    /// The variables `ev` binds for this monitor.
    pub open spec fn extract_view(&self, ev: EventView) -> Result<
        Option<Seq<(Seq<char>, ValueView)>>,
        (),
    > {
        extract_spec(self.log_source(), self.ignore_source(), ev)
    }

    /// The value that the uniqueness gate keys on in `b`.
    pub open spec fn key_of(&self, b: Seq<(Seq<char>, ValueView)>) -> Option<Seq<char>> {
        match self.unique {
            Some(u) => lookup_text(b, u.variable@),
            None => None,
        }
    }

    /// The unique values seen so far.
    pub open spec fn seen(&self) -> Set<Seq<char>> {
        match self.unique {
            Some(u) => u.seen.view_set(),
            None => Set::empty(),
        }
    }

    /// The instants in the threshold ring.
    pub open spec fn recorded(&self) -> Seq<u64> {
        match self.threshold {
            Some(t) => t.recorded(),
            None => Seq::empty(),
        }
    }

    /// Whether the threshold is met at `now` once the ring holds `rec`.
    pub open spec fn fires(&self, rec: Seq<u64>, now: u64) -> bool {
        match self.threshold {
            Some(t) => fires_spec(rec, t.capacity as nat, t.window, now),
            None => true,
        }
    }

    /// The bindings of `ev` when it passes the cooldown, the patterns and the
    /// uniqueness gate.
    pub open spec fn admitted(&self, ev: EventView, now: u64) -> Option<
        Seq<(Seq<char>, ValueView)>,
    > {
        if self.cooling(now) {
            None
        } else {
            match self.extract_view(ev) {
                Ok(Some(b)) => if self.key_of(b) matches Some(k) && self.seen().contains(k) {
                    None
                } else {
                    Some(b)
                },
                _ => None,
            }
        }
    }

    /// The settings are those of `o`; only what was seen may differ.
    pub open spec fn same_settings(&self, o: &Monitor) -> bool {
        &&& self.name == o.name
        &&& self.cooldown == o.cooldown
        &&& self.log_regex == o.log_regex
        &&& self.ignore_regex == o.ignore_regex
        &&& self.action == o.action
        &&& self.unique is Some == o.unique is Some
        &&& (self.unique matches Some(u) ==> u.variable == o.unique->0.variable)
        &&& self.threshold is Some == o.threshold is Some
        &&& (self.threshold matches Some(t) ==> t.capacity == o.threshold->0.capacity
            && t.window == o.threshold->0.window)
    }

    /// The variables that `event` binds.
    fn extract(&self, event: Event) -> (r: Result<Option<Vec<Binding>>, EvalError>)
        ensures
            match r {
                Err(_) => self.extract_view(event@) is Err,
                Ok(None) => self.extract_view(event@) == Ok::<
                    Option<Seq<(Seq<char>, ValueView)>>,
                    (),
                >(None),
                Ok(Some(b)) => self.extract_view(event@) == Ok::<
                    Option<Seq<(Seq<char>, ValueView)>>,
                    (),
                >(Some(bindings_view(b@))),
            },
    {
        match event {
            Event::Tick => {
                let b: Vec<Binding> = Vec::new();
                assert(bindings_view(b@) =~= Seq::empty());
                Ok(Some(b))
            },
            Event::NewLogLine(line) => {
                let b = match &self.log_regex {
                    None => {
                        let b: Vec<Binding> = Vec::new();
                        assert(bindings_view(b@) =~= Seq::empty());
                        b
                    },
                    Some(p) => match capture_bindings(p, &line) {
                        None => return Ok(None),
                        Some(b) => b,
                    },
                };
                if let Some(p) = &self.ignore_regex {
                    if p.is_match(&line) {
                        return Ok(None);
                    }
                }
                Ok(Some(b))
            },
            Event::FileChange(paths) => {
                let ghost pv = paths@.map_values(|v: Vec<u8>| v@);
                match decode_lines(paths) {
                    None => Err(EvalError::PathNotUtf8),
                    Some(ds) => {
                        proof {
                            reveal_strlit("files");
                        }
                        let name = String::from_str("files");
                        assert(name@ =~= files_name());
                        let mut b: Vec<Binding> = Vec::new();
                        b.push(Binding { name, value: VarValue::List(ds) });
                        assert(views(ds@) =~= ds@.map_values(|s: String| s@));
                        assert(bindings_view(b@) =~= seq![
                            (files_name(), ValueView::List(decoded_lines(pv)->0)),
                        ]);
                        Ok(Some(b))
                    },
                }
            },
        }
    }

    /// Runs one event through the pipeline at time `now`: cooldown, match
    /// and ignore patterns, uniqueness gate, threshold gate, then dispatch.
    pub fn evaluate(&mut self, event: Event, now: u64) -> (r: Result<Outcome, EvalError>)
        requires
            old(self).wf(),
        ensures
            final(self).wf(),
            final(self).same_settings(old(self)),
            // Dropped before any state changes.
            old(self).admitted(event@, now) is None ==> *final(self) == *old(self),
            old(self).admitted(event@, now) is None ==> (r is Err <==> !old(self).cooling(now)
                && old(self).extract_view(event@) is Err),
            old(self).admitted(event@, now) is None && r is Ok ==> r->Ok_0.is_quiet(),
            // Admitted: the gates record it, and the threshold decides.
            old(self).admitted(event@, now) matches Some(b) ==> {
                &&& r is Ok
                &&& final(self).seen() == match old(self).key_of(b) {
                    Some(k) => old(self).seen().insert(k),
                    None => old(self).seen(),
                }
                &&& r->Ok_0.persist_unique == old(self).key_of(b) is Some
                &&& final(self).recorded() == match old(self).threshold {
                    Some(t) => record_spec(old(self).recorded(), t.capacity as nat, now),
                    None => Seq::<u64>::empty(),
                }
                &&& r->Ok_0.dispatched == old(self).fires(final(self).recorded(), now)
                &&& r->Ok_0.dispatched ==> final(self).last_action_time == Some(now)
                &&& r->Ok_0.dispatched ==> match r->Ok_0.command {
                    Some(c) => old(self).action matches Some(e) && command_spec(e@, env_spec(b))
                        == Some(c@),
                    None => old(self).action matches Some(e) ==> command_spec(e@, env_spec(b))
                        is None,
                }
                &&& !r->Ok_0.dispatched ==> final(self).last_action_time == old(
                    self,
                ).last_action_time && r->Ok_0.command is None
            },
            // Two dispatches are at least the cooldown apart.
            r matches Ok(o) ==> (o.dispatched ==> (old(self).cooldown matches Some(c) ==> (old(
                self,
            ).last_action_time matches Some(t) ==> elapsed(t, now) >= c))),
            // A unique value is acted on at most once, and is never forgotten.
            old(self).seen().subset_of(final(self).seen()),
            r matches Ok(o) ==> (o.dispatched ==> (old(self).admitted(event@, now) matches Some(b)
                ==> (old(self).key_of(b) matches Some(k) ==> !old(self).seen().contains(k)
                && final(self).seen().contains(k)))),
            // A dispatch under a threshold had enough events in its window.
            r matches Ok(o) ==> (o.dispatched ==> (old(self).threshold matches Some(t) ==> fires_spec(
                final(self).recorded(),
                t.capacity as nat,
                t.window,
                now,
            ))),
    {
        if let Some(c) = self.cooldown {
            if let Some(t) = self.last_action_time {
                let gone = if now >= t { now - t } else { 0 };
                if gone < c {
                    return Ok(Outcome::quiet());
                }
            }
        }
        let bindings = match self.extract(event) {
            Err(e) => return Err(e),
            Ok(None) => return Ok(Outcome::quiet()),
            Ok(Some(b)) => b,
        };
        let mut persist_unique = false;
        match &mut self.unique {
            Some(u) => {
                match find_text(&bindings, &u.variable) {
                    Some(v) => {
                        if u.seen.contains(&v) {
                            return Ok(Outcome::quiet());
                        }
                        u.seen.insert(v);
                        persist_unique = true;
                    },
                    None => {},
                }
            },
            None => {},
        }
        match &mut self.threshold {
            Some(t) => {
                let fired = t.record(now);
                if !fired {
                    return Ok(Outcome { persist_unique, dispatched: false, command: None });
                }
            },
            None => {},
        }
        self.last_action_time = Some(now);
        let command = match &self.action {
            Some(e) => {
                let env = env_of(&bindings);
                build_command(e, env)
            },
            None => None,
        };
        Ok(Outcome { persist_unique, dispatched: true, command })
    }
}

} // verus!
