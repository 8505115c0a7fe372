use crate::unique::views;
use vstd::prelude::*;
use vstd::string::*;

verus! {

/// The text that TOML gives an array of strings, as `toml::Value`'s
/// `Display` writes it.
pub uninterp spec fn toml_array_text(items: Seq<Seq<char>>) -> Seq<char>;

/// Relies on `toml::Value`'s `Display` for an array of strings.
#[verifier::external_body]
fn array_text(items: &Vec<String>) -> (r: String)
    ensures
        r@ == toml_array_text(views(items@)),
{
    toml::Value::Array(items.iter().map(|s| toml::Value::String(s.clone())).collect()).to_string()
}

/// The value bound to a variable: a captured text, or a list of paths.
#[derive(Clone, Debug, PartialEq, Eq)]
pub enum VarValue {
    Text(String),
    List(Vec<String>),
}

/// The mathematical value of a `VarValue`.
pub enum ValueView {
    Text(Seq<char>),
    List(Seq<Seq<char>>),
}

impl View for VarValue {
    type V = ValueView;

    open spec fn view(&self) -> ValueView {
        match self {
            VarValue::Text(s) => ValueView::Text(s@),
            VarValue::List(l) => ValueView::List(views(l@)),
        }
    }
}

/// A variable bound while evaluating an event.
#[derive(Clone, Debug, PartialEq, Eq)]
pub struct Binding {
    pub name: String,
    pub value: VarValue,
}

impl View for Binding {
    type V = (Seq<char>, ValueView);

    open spec fn view(&self) -> (Seq<char>, ValueView) {
        (self.name@, self.value@)
    }
}

/// The views of a sequence of bindings.
pub open spec fn bindings_view(b: Seq<Binding>) -> Seq<(Seq<char>, ValueView)> {
    b.map_values(|x: Binding| x@)
}

/// The views of a sequence of string pairs.
pub open spec fn pairs_view(p: Seq<(String, String)>) -> Seq<(Seq<char>, Seq<char>)> {
    p.map_values(|x: (String, String)| (x.0@, x.1@))
}

/// The text of a value as it goes into the environment: a text as it is, a
/// list in TOML's notation.
pub open spec fn value_text(v: ValueView) -> Seq<char> {
    match v {
        ValueView::Text(s) => s,
        ValueView::List(l) => toml_array_text(l),
    }
}

/// The environment that a set of bindings gives an action.
pub open spec fn env_spec(b: Seq<(Seq<char>, ValueView)>) -> Seq<(Seq<char>, Seq<char>)> {
    b.map_values(|x: (Seq<char>, ValueView)| (x.0, value_text(x.1)))
}

/// The text form of a value.
pub fn value_to_string(value: &VarValue) -> (r: String)
    ensures
        r@ == value_text(value@),
{
    match value {
        VarValue::Text(s) => s.clone(),
        VarValue::List(l) => array_text(l),
    }
}

/// The environment for an action: each binding's name with its text form.
pub fn env_of(bindings: &Vec<Binding>) -> (r: Vec<(String, String)>)
    ensures
        pairs_view(r@) == env_spec(bindings_view(bindings@)),
{
    let mut out: Vec<(String, String)> = Vec::new();
    let mut i: usize = 0;
    while i < bindings.len()
        invariant
            i <= bindings.len(),
            pairs_view(out@) == env_spec(bindings_view(bindings@)).take(i as int),
        decreases bindings.len() - i,
    {
        let b = &bindings[i];
        let text = value_to_string(&b.value);
        let ghost before = out@;
        out.push((b.name.clone(), text));
        assert(out@ == before.push((b.name, text)));
        assert(pairs_view(out@) =~= pairs_view(before).push((b.name@, text@)));
        assert(bindings_view(bindings@)[i as int] == (b.name@, b.value@));
        assert(pairs_view(out@) =~= env_spec(bindings_view(bindings@)).take(i as int + 1));
        i = i + 1;
    }
    assert(env_spec(bindings_view(bindings@)).take(i as int) =~= env_spec(bindings_view(bindings@)));
    out
}

/// How an action runs: a command line for `sh -c`, or a program and its
/// arguments.
#[derive(Clone, Debug, PartialEq, Eq)]
pub enum Exec {
    Shell(String),
    Spawn(Vec<String>),
}

/// The mathematical value of an `Exec`.
pub enum ExecView {
    Shell(Seq<char>),
    Spawn(Seq<Seq<char>>),
}

impl View for Exec {
    type V = ExecView;

    open spec fn view(&self) -> ExecView {
        match self {
            Exec::Shell(c) => ExecView::Shell(c@),
            Exec::Spawn(a) => ExecView::Spawn(views(a@)),
        }
    }
}

/// A process to start: program, arguments, and variables added to the
/// inherited environment.
#[derive(Clone, Debug, PartialEq, Eq)]
pub struct CommandLine {
    pub program: String,
    pub args: Vec<String>,
    pub env: Vec<(String, String)>,
}

/// The mathematical value of a `CommandLine`.
pub struct CommandView {
    pub program: Seq<char>,
    pub args: Seq<Seq<char>>,
    pub env: Seq<(Seq<char>, Seq<char>)>,
}

impl View for CommandLine {
    type V = CommandView;

    open spec fn view(&self) -> CommandView {
        CommandView { program: self.program@, args: views(self.args@), env: pairs_view(self.env@) }
    }
}

/// The process that `exec` starts with `env`; `None` for an empty argument
/// list, which has no program to run.
pub open spec fn command_spec(exec: ExecView, env: Seq<(Seq<char>, Seq<char>)>) -> Option<
    CommandView,
> {
    match exec {
        ExecView::Shell(c) => Some(
            CommandView { program: seq!['s', 'h'], args: seq![seq!['-', 'c'], c], env },
        ),
        ExecView::Spawn(a) => if a.len() == 0 {
            None
        } else {
            Some(CommandView { program: a[0], args: a.drop_first(), env })
        },
    }
}

/// The process that follows the journal of the service `unit`:
/// `journalctl -n0 -fu <unit>`.
pub fn service_follower(unit: &String) -> (r: CommandLine)
    ensures
        r@.program == "journalctl"@,
        r@.args == seq!["-n0"@, "-fu"@, unit@],
        r@.env.len() == 0,
{
    let mut args: Vec<String> = Vec::new();
    args.push(String::from_str("-n0"));
    args.push(String::from_str("-fu"));
    args.push(unit.clone());
    let r = CommandLine { program: String::from_str("journalctl"), args, env: Vec::new() };
    assert(views(r.args@) =~= seq!["-n0"@, "-fu"@, unit@]);
    assert(pairs_view(r.env@) =~= Seq::empty());
    r
}

/// Builds the process for `exec` with the variables `env`.
pub fn build_command(exec: &Exec, env: Vec<(String, String)>) -> (r: Option<CommandLine>)
    ensures
        match r {
            Some(c) => command_spec(exec@, pairs_view(env@)) == Some(c@),
            None => command_spec(exec@, pairs_view(env@)) is None,
        },
{
    match exec {
        Exec::Shell(c) => {
            proof {
                reveal_strlit("sh");
                reveal_strlit("-c");
            }
            let program = String::from_str("sh");
            let flag = String::from_str("-c");
            assert(flag@ =~= seq!['-', 'c']);
            let mut args: Vec<String> = Vec::new();
            args.push(flag);
            args.push(c.clone());
            let r = CommandLine { program, args, env };
            assert(views(r.args@) =~= seq![seq!['-', 'c'], c@]);
            assert(r@.program =~= seq!['s', 'h']);
            Some(r)
        },
        Exec::Spawn(a) => {
            if a.len() == 0 {
                return None;
            }
            let program = a[0].clone();
            let mut args: Vec<String> = Vec::new();
            let mut i: usize = 1;
            while i < a.len()
                invariant
                    1 <= i <= a.len(),
                    views(args@) == views(a@).subrange(1, i as int),
                decreases a.len() - i,
            {
                let ghost before = args@;
                args.push(a[i].clone());
                assert(views(args@) =~= views(before).push(a@[i as int]@));
                assert(views(args@) =~= views(a@).subrange(1, i as int + 1));
                i = i + 1;
            }
            let r = CommandLine { program, args, env };
            assert(views(a@).drop_first() =~= views(a@).subrange(1, a.len() as int));
            Some(r)
        },
    }
}

} // verus!
