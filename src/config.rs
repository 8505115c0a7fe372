use crate::action::{Exec, ExecView};
use crate::pattern::{regex_compiles, Pattern};
use crate::unique::views;
use vstd::prelude::*;
use vstd::string::*;

verus! {

/// The duration, in nanoseconds, that `duration_str::parse` reads
/// from `s`, or `None` when it rejects `s`.
pub uninterp spec fn duration_nanos(s: Seq<char>) -> Option<int>;

/// Whether `lettre`'s `Mailbox` parses `s`.
pub uninterp spec fn mailbox_valid(s: Seq<char>) -> bool;

/// Relies on `duration_str::parse`: the duration in nanoseconds, or
/// the parser's message.
#[verifier::external_body]
fn parse_duration(s: &String) -> (r: Result<u128, String>)
    ensures
        r is Ok <==> duration_nanos(s@) is Some,
        r matches Ok(ms) ==> duration_nanos(s@) == Some(ms as int),
{
    duration_str::parse(s).map(|d| d.as_nanos())
}

#[verifier::external_type_specification]
#[verifier::external_body]
pub struct ExMailbox(lettre::message::Mailbox);

/// Relies on `Mailbox`'s `FromStr`: a mailbox such as `Name <user@host>`.
#[verifier::external_body]
fn parse_mailbox(s: &String) -> (r: Result<lettre::message::Mailbox, String>)
    ensures
        r is Ok <==> mailbox_valid(s@),
{
    s.parse::<lettre::message::Mailbox>().map_err(|e| e.to_string())
}

/// A configuration value: a string, an array, a table of keys in document
/// order, or any other scalar in its TOML notation.
#[derive(Debug)]
pub enum ConfigValue {
    Str(String),
    Array(Vec<ConfigValue>),
    /// A table: its keys, and the value of each key at the same index.
    Table(Vec<String>, Vec<ConfigValue>),
    Other(String),
}

/// A table of settings, borrowed: its keys, and the value of each at the
/// same index.
#[derive(Clone, Copy, Debug)]
pub struct Table<'a> {
    pub keys: &'a Vec<String>,
    pub values: &'a Vec<ConfigValue>,
}

/// What is wrong with a setting.
#[derive(Clone, Debug, PartialEq, Eq)]
pub enum ErrorKind {
    /// The value has the wrong type.
    WrongType,
    /// The value could not be read; the reason follows.
    Invalid(String),
    /// The key must be set.
    Missing,
    /// The key is not known.
    UnknownKey,
    /// The value is an empty array.
    Empty,
}

/// What is wrong with a configuration, and where: the enclosing tables,
/// outermost first, and the key.
#[derive(Debug)]
pub struct ConfigError {
    pub scope: Vec<String>,
    pub key: String,
    pub kind: ErrorKind,
}

impl ConfigError {
    /// An error about `key` at the top of the table being read.
    pub fn at(key: &String, kind: ErrorKind) -> (r: ConfigError)
        ensures
            r.key@ == key@,
            r.kind == kind,
            r.scope@.len() == 0,
    {
        ConfigError { scope: Vec::new(), key: key.clone(), kind }
    }

    /// The key that the error is about.
    pub open spec fn key(&self) -> Seq<char> {
        self.key@
    }
}

/// The value of the first entry of `t` under `key`.
pub open spec fn get_spec(t: Table, key: Seq<char>) -> Option<ConfigValue> {
    get_from(t.keys@, t.values@, key, 0)
}

/// The value of the first key at or after `i` that is `key`.
pub open spec fn get_from(keys: Seq<String>, values: Seq<ConfigValue>, key: Seq<char>, i: nat) -> Option<
    ConfigValue,
>
    decreases keys.len() - i,
{
    if i >= keys.len() || i >= values.len() {
        None
    } else if keys[i as int]@ == key {
        Some(values[i as int])
    } else {
        get_from(keys, values, key, i + 1)
    }
}

/// The value under `key`.
pub fn table_get<'a>(t: &Table<'a>, key: &String) -> (r: Option<&'a ConfigValue>)
    ensures
        match r {
            Some(v) => get_spec(*t, key@) == Some(*v),
            None => get_spec(*t, key@) is None,
        },
{
    lookup(t.keys, t.values, key)
}

/// The value under `key`, among `keys` and the `values` at the same indices.
fn lookup<'a>(keys: &'a Vec<String>, values: &'a Vec<ConfigValue>, key: &String) -> (r: Option<
    &'a ConfigValue,
>)
    ensures
        match r {
            Some(v) => get_from(keys@, values@, key@, 0) == Some(*v),
            None => get_from(keys@, values@, key@, 0) is None,
        },
{
    let mut i: usize = 0;
    while i < keys.len() && i < values.len()
        invariant
            get_from(keys@, values@, key@, 0) == get_from(keys@, values@, key@, i as nat),
        decreases keys.len() - i,
    {
        if keys[i] == *key {
            return Some(&values[i]);
        }
        i = i + 1;
    }
    None
}

/// A duration setting in nanoseconds, when it fits a `u64`.
pub open spec fn nanos_spec(s: Seq<char>) -> Option<u64> {
    match duration_nanos(s) {
        Some(ms) => if 0 <= ms <= u64::MAX {
            Some(ms as u64)
        } else {
            None
        },
        None => None,
    }
}

/// A parsed duration in nanoseconds as a `u64`, when it fits.
pub fn fit_nanos(ns: u128) -> (r: Option<u64>)
    ensures
        r == if ns <= u64::MAX {
            Some(ns as u64)
        } else {
            None::<u64>
        },
{
    if ns <= u64::MAX as u128 {
        Some(ns as u64)
    } else {
        None
    }
}

/// The event count of a threshold written as a window alone: as many
/// periods of `every` as fit in `window`; `None` when `every` is zero or
/// the count does not fit a `usize`.
pub fn threshold_count(window: u64, every: u64) -> (r: Option<usize>)
    ensures
        r == if every > 0 && window / every <= usize::MAX {
            Some((window / every) as usize)
        } else {
            None::<usize>
        },
{
    if every == 0 {
        return None;
    }
    let n = window / every;
    if n > usize::MAX as u64 {
        None
    } else {
        Some(n as usize)
    }
}

/// Reads a duration setting.
fn nanos(key: &String, s: &String) -> (r: Result<u64, ConfigError>)
    ensures
        match r {
            Ok(ms) => nanos_spec(s@) == Some(ms),
            Err(e) => nanos_spec(s@) is None && e.key() == key@ && e.scope@.len() == 0,
        },
{
    match parse_duration(s) {
        Ok(ns) => match fit_nanos(ns) {
            Some(ns) => Ok(ns),
            None => Err(ConfigError::at(key, ErrorKind::Invalid(String::from_str("duration too long")))),
        },
        Err(why) => Err(ConfigError::at(key, ErrorKind::Invalid(why))),
    }
}

/// An optional string setting: absent, a string, or of the wrong type.
pub open spec fn opt_str_spec(v: Option<ConfigValue>) -> Result<Option<Seq<char>>, ()> {
    match v {
        None => Ok(None),
        Some(ConfigValue::Str(s)) => Ok(Some(s@)),
        Some(_) => Err(()),
    }
}

/// Reads an optional string setting.
fn opt_str(t: &Table, key: &String) -> (r: Result<Option<String>, ConfigError>)
    ensures
        match r {
            Ok(None) => opt_str_spec(get_spec(*t, key@)) == Ok::<Option<Seq<char>>, ()>(None),
            Ok(Some(s)) => opt_str_spec(get_spec(*t, key@)) == Ok::<Option<Seq<char>>, ()>(
                Some(s@),
            ),
            Err(e) => opt_str_spec(get_spec(*t, key@)) is Err && e.key() == key@ && e.scope@.len() == 0,
        },
{
    match table_get(t, key) {
        None => Ok(None),
        Some(ConfigValue::Str(s)) => Ok(Some(s.clone())),
        Some(_) => Err(ConfigError::at(key, ErrorKind::WrongType)),
    }
}

/// An optional duration setting.
pub open spec fn opt_nanos_spec(v: Option<ConfigValue>) -> Result<Option<u64>, ()> {
    match v {
        None => Ok(None),
        Some(ConfigValue::Str(s)) => match nanos_spec(s@) {
            Some(ms) => Ok(Some(ms)),
            None => Err(()),
        },
        Some(_) => Err(()),
    }
}

/// Reads an optional duration setting.
fn opt_nanos(t: &Table, key: &String) -> (r: Result<Option<u64>, ConfigError>)
    ensures
        match r {
            Ok(v) => opt_nanos_spec(get_spec(*t, key@)) == Ok::<Option<u64>, ()>(v),
            Err(e) => opt_nanos_spec(get_spec(*t, key@)) is Err && e.key() == key@ && e.scope@.len()
                == 0,
        },
{
    match table_get(t, key) {
        None => Ok(None),
        Some(ConfigValue::Str(s)) => match nanos(key, s) {
            Ok(ms) => Ok(Some(ms)),
            Err(e) => Err(e),
        },
        Some(_) => Err(ConfigError::at(key, ErrorKind::WrongType)),
    }
}

/// An optional regular-expression setting: its source when it compiles.
pub open spec fn opt_regex_spec(v: Option<ConfigValue>) -> Result<Option<Seq<char>>, ()> {
    match v {
        None => Ok(None),
        Some(ConfigValue::Str(s)) => if regex_compiles(s@) {
            Ok(Some(s@))
        } else {
            Err(())
        },
        Some(_) => Err(()),
    }
}

/// Reads an optional regular-expression setting.
fn opt_regex(t: &Table, key: &String) -> (r: Result<Option<Pattern>, ConfigError>)
    ensures
        match r {
            Ok(None) => opt_regex_spec(get_spec(*t, key@)) == Ok::<Option<Seq<char>>, ()>(None),
            Ok(Some(p)) => opt_regex_spec(get_spec(*t, key@)) == Ok::<Option<Seq<char>>, ()>(
                Some(p.source()),
            ),
            Err(e) => opt_regex_spec(get_spec(*t, key@)) is Err && e.key() == key@ && e.scope@.len()
                == 0,
        },
{
    match table_get(t, key) {
        None => Ok(None),
        Some(ConfigValue::Str(s)) => match Pattern::compile(s) {
            Ok(p) => Ok(Some(p)),
            Err(why) => Err(ConfigError::at(key, ErrorKind::Invalid(why))),
        },
        Some(_) => Err(ConfigError::at(key, ErrorKind::WrongType)),
    }
}

/// `s` without a leading `+`.
pub open spec fn unsigned_part(s: Seq<char>) -> Seq<char> {
    if s.len() > 0 && s[0] == '+' {
        s.drop_first()
    } else {
        s
    }
}

/// Whether every character of `d` is a decimal digit.
pub open spec fn all_digits(d: Seq<char>) -> bool {
    forall|i: int| 0 <= i < d.len() ==> '0' <= #[trigger] d[i] <= '9'
}

/// The count that `usize`'s `FromStr` reads: an optional `+`, then one or
/// more decimal digits, of a value that fits.
pub open spec fn count_spec(s: Seq<char>) -> Option<usize> {
    let d = unsigned_part(s);
    if d.len() > 0 && all_digits(d) && digits_value(d) <= usize::MAX {
        Some(digits_value(d) as usize)
    } else {
        None
    }
}

/// The value of a string of decimal digits.
pub open spec fn digits_value(d: Seq<char>) -> int
    decreases d.len(),
{
    if d.len() == 0 {
        0
    } else {
        digits_value(d.drop_last()) * 10 + (d.last() as int - '0' as int)
    }
}

/// A prefix of a digit string is worth no more than the whole.
proof fn lemma_digits_grow(d: Seq<char>, i: int)
    requires
        0 <= i <= d.len(),
        forall|j: int| 0 <= j < d.len() ==> '0' <= #[trigger] d[j] <= '9',
    ensures
        0 <= digits_value(d.take(i)) <= digits_value(d),
    decreases d.len(),
{
    if d.len() == 0 {
        assert(d.take(i) =~= d);
    } else {
        let dl = d.drop_last();
        if i == d.len() {
            assert(d.take(i) =~= d);
            lemma_digits_grow(dl, dl.len() as int);
        } else {
            lemma_digits_grow(dl, i);
            assert(dl.take(i) =~= d.take(i));
        }
        assert(dl.take(dl.len() as int) =~= dl);
        lemma_digits_grow(dl, dl.len() as int);
        assert('0' <= d[d.len() - 1] <= '9');
    }
}

/// Reads a count: an optional `+`, then decimal digits of a value that fits
/// a `usize`, as `usize`'s `FromStr` reads it.
pub fn parse_count(s: &String) -> (r: Option<usize>)
    ensures
        r == count_spec(s@),
{
    let text = s.as_str();
    let n = text.unicode_len();
    let start: usize = if n > 0 && text.get_char(0) == '+' {
        1
    } else {
        0
    };
    let ghost d = if s@.len() > 0 && s@[0] == '+' {
        s@.drop_first()
    } else {
        s@
    };
    assert(d =~= s@.subrange(start as int, n as int));
    if start == n {
        return None;
    }
    let mut i: usize = start;
    let mut v: usize = 0;
    assert(d.take(0) =~= Seq::<char>::empty());
    while i < n
        invariant
            start <= i <= n,
            start <= 1,
            n == s@.len(),
            text@ == s@,
            d == s@.subrange(start as int, n as int),
            d == (if s@.len() > 0 && s@[0] == '+' {
                s@.drop_first()
            } else {
                s@
            }),
            forall|j: int| 0 <= j < i - start ==> '0' <= #[trigger] d[j] <= '9',
            v as int == digits_value(d.take(i - start)),
        decreases n - i,
    {
        let c = text.get_char(i);
        let k = i - start;
        assert(d[k as int] == c);
        if c < '0' || c > '9' {
            assert(!('0' <= d[k as int] <= '9'));
            assert(!all_digits(d));
            assert(unsigned_part(s@) == d);
            return None;
        }
        let digit = (c as u32 - '0' as u32) as usize;
        assert(d.take(k + 1).drop_last() =~= d.take(k as int));
        assert(digits_value(d.take(k + 1)) == v * 10 + digit);
        let next = match v.checked_mul(10) {
            Some(m) => m.checked_add(digit),
            None => None,
        };
        match next {
            Some(w) => v = w,
            None => {
                proof {
                    if all_digits(d) {
                        lemma_digits_grow(d, k + 1);
                        assert(digits_value(d) > usize::MAX);
                    }
                    assert(unsigned_part(s@) == d);
                }
                return None;
            },
        }
        i = i + 1;
    }
    assert(d.take(n - start) =~= d);
    Some(v)
}

/// The pieces of `s` between occurrences of `sep`; `k` occurrences give
/// `k + 1` pieces.
pub open spec fn split_char_spec(s: Seq<char>, sep: char) -> Seq<Seq<char>>
    decreases s.len(),
{
    if s.len() == 0 {
        seq![Seq::<char>::empty()]
    } else {
        let rest = split_char_spec(s.drop_last(), sep);
        if s.last() == sep {
            rest.push(Seq::<char>::empty())
        } else {
            rest.update(rest.len() - 1, rest.last().push(s.last()))
        }
    }
}

proof fn lemma_split_char_len(s: Seq<char>, sep: char)
    ensures
        split_char_spec(s, sep).len() >= 1,
    decreases s.len(),
{
    if s.len() > 0 {
        lemma_split_char_len(s.drop_last(), sep);
    }
}

/// Splits `s` at every `sep`.
pub fn split_char(s: &String, sep: char) -> (r: Vec<String>)
    ensures
        views(r@) == split_char_spec(s@, sep),
{
    let text = s.as_str();
    let n = text.unicode_len();
    let mut out: Vec<String> = Vec::new();
    let mut start: usize = 0;
    let mut i: usize = 0;
    assert(s@.take(0) =~= Seq::<char>::empty());
    while i < n
        invariant
            n == s@.len(),
            text@ == s@,
            start <= i <= n,
            views(out@).push(s@.subrange(start as int, i as int)) == split_char_spec(
                s@.take(i as int),
                sep,
            ),
        decreases n - i,
    {
        let c = text.get_char(i);
        proof {
            let t = s@.take(i as int + 1);
            assert(t.drop_last() =~= s@.take(i as int));
            assert(t.last() == c);
            lemma_split_char_len(s@.take(i as int), sep);
        }
        let ghost prev = views(out@);
        if c == sep {
            let piece = text.substring_char(start, i).to_owned();
            out.push(piece);
            assert(views(out@) =~= prev.push(s@.subrange(start as int, i as int)));
            start = i + 1;
            assert(s@.subrange(start as int, i as int + 1) =~= Seq::<char>::empty());
        } else {
            assert(s@.subrange(start as int, i as int + 1) =~= s@.subrange(start as int, i as int).push(c));
        }
        i = i + 1;
    }
    assert(s@.take(n as int) =~= s@);
    let last = text.substring_char(start, n).to_owned();
    let ghost prev = views(out@);
    out.push(last);
    assert(views(out@) =~= prev.push(s@.subrange(start as int, n as int)));
    out
}

/// The threshold a setting gives: `N/W`, or `W` alone with `every` set,
/// which asks for as many events as periods fit in `W`.
pub open spec fn threshold_spec(v: Option<ConfigValue>, every: Option<u64>) -> Result<
    Option<(usize, u64)>,
    (),
> {
    match v {
        None => Ok(None),
        Some(ConfigValue::Str(s)) => {
            let parts = split_char_spec(s@, '/');
            if parts.len() == 1 {
                match (every, nanos_spec(parts[0])) {
                    (Some(e), Some(w)) => if e > 0 && w / e <= usize::MAX {
                        Ok(Some(((w / e) as usize, w)))
                    } else {
                        Err(())
                    },
                    _ => Err(()),
                }
            } else if parts.len() == 2 {
                match (count_spec(parts[0]), nanos_spec(parts[1])) {
                    (Some(n), Some(w)) => Ok(Some((n, w))),
                    _ => Err(()),
                }
            } else {
                Err(())
            }
        },
        Some(_) => Err(()),
    }
}

/// Reads the threshold setting.
fn threshold(t: &Table, every: Option<u64>) -> (r: Result<Option<(usize, u64)>, ConfigError>)
    ensures
        match r {
            Ok(v) => threshold_spec(get_spec(*t, "threshold"@), every) == Ok::<
                Option<(usize, u64)>,
                (),
            >(v),
            Err(e) => threshold_spec(get_spec(*t, "threshold"@), every) is Err && e.scope@.len() == 0
                && (e.key@ == "threshold"@ || e.key@ == "every"@),
        },
{
    let key = String::from_str("threshold");
    let s = match table_get(t, &key) {
        None => return Ok(None),
        Some(ConfigValue::Str(s)) => s,
        Some(_) => return Err(ConfigError::at(&key, ErrorKind::WrongType)),
    };
    let parts = split_char(s, '/');
    if parts.len() == 1 {
        let e = match every {
            Some(e) => e,
            None => return Err(ConfigError::at(&String::from_str("every"), ErrorKind::Missing)),
        };
        let w = match nanos(&key, &parts[0]) {
            Ok(w) => w,
            Err(err) => return Err(err),
        };
        if e == 0 {
            return Err(ConfigError::at(&String::from_str("every"), ErrorKind::Invalid(String::from_str("must be positive"))));
        }
        match threshold_count(w, e) {
            Some(n) => Ok(Some((n, w))),
            None => Err(ConfigError::at(&key, ErrorKind::Invalid(String::from_str("count too large")))),
        }
    } else if parts.len() == 2 {
        let n = match parse_count(&parts[0]) {
            Some(n) => n,
            None => return Err(ConfigError::at(&key, ErrorKind::Invalid(String::from_str("count is not a number")))),
        };
        let w = match nanos(&key, &parts[1]) {
            Ok(w) => w,
            Err(err) => return Err(err),
        };
        Ok(Some((n, w)))
    } else {
        Err(ConfigError::at(&key, ErrorKind::Invalid(String::from_str("expected N/W or W"))))
    }
}

/// The text of an array item: a string as it is, another scalar in TOML
/// notation.
pub open spec fn item_text(v: ConfigValue) -> Option<Seq<char>> {
    match v {
        ConfigValue::Str(s) => Some(s@),
        ConfigValue::Other(t) => Some(t@),
        _ => None,
    }
}

/// The texts of array items, when each has one.
pub open spec fn item_texts(items: Seq<ConfigValue>) -> Option<Seq<Seq<char>>> {
    if forall|i: int| 0 <= i < items.len() ==> (#[trigger] item_text(items[i])) is Some {
        Some(items.map_values(|v: ConfigValue| item_text(v)->0))
    } else {
        None
    }
}

/// Reads the texts of array items.
fn texts(items: &Vec<ConfigValue>) -> (r: Option<Vec<String>>)
    ensures
        match r {
            Some(v) => item_texts(items@) == Some(views(v@)),
            None => item_texts(items@) is None,
        },
{
    let mut out: Vec<String> = Vec::new();
    let mut i: usize = 0;
    while i < items.len()
        invariant
            i <= items.len(),
            views(out@) == items@.take(i as int).map_values(|v: ConfigValue| item_text(v)->0),
            forall|j: int| 0 <= j < i ==> (#[trigger] item_text(items@[j])) is Some,
        decreases items.len() - i,
    {
        let ghost prev = views(out@);
        match &items[i] {
            ConfigValue::Str(s) => out.push(s.clone()),
            ConfigValue::Other(t) => out.push(t.clone()),
            _ => {
                assert(item_text(items@[i as int]) is None);
                return None;
            },
        }
        assert(views(out@) == prev.push(item_text(items@[i as int])->0));
        assert(items@.take(i as int + 1) =~= items@.take(i as int).push(items@[i as int]));
        assert(views(out@) =~= items@.take(i as int + 1).map_values(
            |v: ConfigValue| item_text(v)->0,
        ));
        i = i + 1;
    }
    assert(items@.take(i as int) =~= items@);
    Some(out)
}

/// The action a setting gives: a string runs through the shell, a non-empty
/// array is a program with its arguments.
pub open spec fn exec_spec(v: Option<ConfigValue>) -> Result<Option<ExecView>, ()> {
    match v {
        None => Ok(None),
        Some(ConfigValue::Str(c)) => Ok(Some(ExecView::Shell(c@))),
        Some(ConfigValue::Array(items)) => if items@.len() == 0 {
            Err(())
        } else {
            match item_texts(items@) {
                Some(a) => Ok(Some(ExecView::Spawn(a))),
                None => Err(()),
            }
        },
        Some(_) => Err(()),
    }
}

/// Reads the action setting.
fn exec_setting(t: &Table) -> (r: Result<Option<Exec>, ConfigError>)
    ensures
        match r {
            Ok(None) => exec_spec(get_spec(*t, "exec"@)) == Ok::<Option<ExecView>, ()>(None),
            Ok(Some(e)) => exec_spec(get_spec(*t, "exec"@)) == Ok::<Option<ExecView>, ()>(Some(e@)),
            Err(e) => exec_spec(get_spec(*t, "exec"@)) is Err && e.scope@.len() == 0 && e.key@
                == "exec"@,
        },
{
    let key = String::from_str("exec");
    match table_get(t, &key) {
        None => Ok(None),
        Some(ConfigValue::Str(c)) => Ok(Some(Exec::Shell(c.clone()))),
        Some(ConfigValue::Array(items)) => {
            if items.len() == 0 {
                return Err(ConfigError::at(&key, ErrorKind::Empty));
            }
            match texts(items) {
                Some(a) => Ok(Some(Exec::Spawn(a))),
                None => Err(ConfigError::at(&key, ErrorKind::WrongType)),
            }
        },
        Some(_) => Err(ConfigError::at(&key, ErrorKind::WrongType)),
    }
}

/// The paths a `watch` setting gives: one path, or an array of them.
pub open spec fn watch_spec(v: Option<ConfigValue>) -> Result<Seq<Seq<char>>, ()> {
    match v {
        None => Ok(Seq::empty()),
        Some(ConfigValue::Str(p)) => Ok(seq![p@]),
        Some(ConfigValue::Array(items)) => if forall|i: int|
            0 <= i < items@.len() ==> (#[trigger] items@[i]) is Str {
            Ok(items@.map_values(|v: ConfigValue| item_text(v)->0))
        } else {
            Err(())
        },
        Some(_) => Err(()),
    }
}

/// Whether every item is a string.
fn all_strings(items: &Vec<ConfigValue>) -> (r: bool)
    ensures
        r == forall|j: int| 0 <= j < items@.len() ==> (#[trigger] items@[j]) is Str,
{
    let mut i: usize = 0;
    while i < items.len()
        invariant
            i <= items.len(),
            forall|j: int| 0 <= j < i ==> (#[trigger] items@[j]) is Str,
        decreases items.len() - i,
    {
        match &items[i] {
            ConfigValue::Str(_) => {},
            _ => {
                assert(!(items@[i as int] is Str));
                return false;
            },
        }
        i = i + 1;
    }
    true
}

/// Reads the watched paths.
fn watch_setting(t: &Table) -> (r: Result<Vec<String>, ConfigError>)
    ensures
        match r {
            Ok(w) => watch_spec(get_spec(*t, "watch"@)) == Ok::<Seq<Seq<char>>, ()>(views(w@)),
            Err(e) => watch_spec(get_spec(*t, "watch"@)) is Err && e.scope@.len() == 0 && e.key@
                == "watch"@,
        },
{
    let key = String::from_str("watch");
    match table_get(t, &key) {
        None => {
            let w: Vec<String> = Vec::new();
            assert(views(w@) =~= Seq::empty());
            Ok(w)
        },
        Some(ConfigValue::Str(p)) => {
            let mut w: Vec<String> = Vec::new();
            w.push(p.clone());
            assert(views(w@) =~= seq![p@]);
            Ok(w)
        },
        Some(ConfigValue::Array(items)) => {
            if !all_strings(items) {
                return Err(ConfigError::at(&key, ErrorKind::WrongType));
            }
            assert(forall|j: int| 0 <= j < items@.len() ==> (#[trigger] item_text(items@[j])) is Some);
            match texts(items) {
                Some(w) => Ok(w),
                None => Err(ConfigError::at(&key, ErrorKind::WrongType)),
            }
        },
        Some(_) => Err(ConfigError::at(&key, ErrorKind::WrongType)),
    }
}

/// A notification to send when a monitor acts.
#[derive(Clone, Debug, PartialEq, Eq)]
pub struct Notification {
    /// Which notification configuration to send it through.
    pub kind: String,
    pub title: String,
    pub body: String,
}

/// A text setting of a notification table, with its default.
pub open spec fn text_or(v: Option<ConfigValue>, default: Seq<char>) -> Result<Seq<char>, ()> {
    match v {
        None => Ok(default),
        Some(ConfigValue::Str(s)) => Ok(s@),
        Some(_) => Err(()),
    }
}

/// The notification a setting gives, as kind, title and body: a string is
/// the title of a default notification; a table may set each of the three.
pub open spec fn notify_spec(v: Option<ConfigValue>) -> Result<
    Option<(Seq<char>, Seq<char>, Seq<char>)>,
    (),
> {
    match v {
        None => Ok(None),
        Some(ConfigValue::Str(title)) => Ok(Some(("default"@, title@, ""@))),
        Some(ConfigValue::Table(keys, values)) => {
            match (
                text_or(get_from(keys@, values@, "type"@, 0), "default"@),
                text_or(get_from(keys@, values@, "title"@, 0), "Ramon Notification"@),
                text_or(get_from(keys@, values@, "body"@, 0), ""@),
            ) {
                (Ok(k), Ok(ti), Ok(b)) => Ok(Some((k, ti, b))),
                _ => Err(()),
            }
        },
        Some(_) => Err(()),
    }
}

/// Reads a text setting of a notification table.
fn text_setting(keys: &Vec<String>, values: &Vec<ConfigValue>, key: &str, default: &str) -> (r:
    Result<String, ConfigError>)
    ensures
        match r {
            Ok(s) => text_or(get_from(keys@, values@, key@, 0), default@) == Ok::<Seq<char>, ()>(
                s@,
            ),
            Err(e) => text_or(get_from(keys@, values@, key@, 0), default@) is Err && e.key@ == key@
                && e.scope@.len() == 0,
        },
{
    let k = String::from_str(key);
    match lookup(keys, values, &k) {
        None => Ok(String::from_str(default)),
        Some(ConfigValue::Str(s)) => Ok(s.clone()),
        Some(_) => Err(ConfigError::at(&k, ErrorKind::WrongType)),
    }
}

/// Reads the notification setting.
fn notify_setting(t: &Table) -> (r: Result<Option<Notification>, ConfigError>)
    ensures
        match r {
            Ok(None) => notify_spec(get_spec(*t, "notify"@)) == Ok::<
                Option<(Seq<char>, Seq<char>, Seq<char>)>,
                (),
            >(None),
            Ok(Some(n)) => notify_spec(get_spec(*t, "notify"@)) == Ok::<
                Option<(Seq<char>, Seq<char>, Seq<char>)>,
                (),
            >(Some((n.kind@, n.title@, n.body@))),
            Err(e) => notify_spec(get_spec(*t, "notify"@)) is Err && ((e.scope@.len() == 0 && e.key@
                == "notify"@) || (views(e.scope@) == seq!["notify"@] && (e.key@ == "type"@ || e.key@
                == "title"@ || e.key@ == "body"@))),
        },
{
    let key = String::from_str("notify");
    match table_get(t, &key) {
        None => Ok(None),
        Some(ConfigValue::Str(title)) => {
            let n = Notification {
                kind: String::from_str("default"),
                title: title.clone(),
                body: String::from_str(""),
            };
            Ok(Some(n))
        },
        Some(ConfigValue::Table(keys, values)) => {
            let kind = match text_setting(keys, values, "type", "default") {
                Ok(k) => k,
                Err(e) => return Err(within(&key, e)),
            };
            let title = match text_setting(keys, values, "title", "Ramon Notification") {
                Ok(k) => k,
                Err(e) => return Err(within(&key, e)),
            };
            let body = match text_setting(keys, values, "body", "") {
                Ok(k) => k,
                Err(e) => return Err(within(&key, e)),
            };
            Ok(Some(Notification { kind, title, body }))
        },
        Some(_) => Err(ConfigError::at(&key, ErrorKind::WrongType)),
    }
}

/// The view of an optional string.
pub open spec fn opt_view(o: Option<String>) -> Option<Seq<char>> {
    match o {
        Some(s) => Some(s@),
        None => None,
    }
}

/// A monitor's validated settings. Durations are in nanoseconds.
#[derive(Debug)]
pub struct MonitorConfig {
    pub name: String,
    pub every: Option<u64>,
    pub log: Option<String>,
    pub service: Option<String>,
    pub watch: Vec<String>,
    pub cooldown: Option<u64>,
    pub match_log: Option<Pattern>,
    pub ignore_log: Option<Pattern>,
    pub unique: Option<String>,
    pub threshold: Option<(usize, u64)>,
    pub action: Option<Exec>,
    pub notify: Option<Notification>,
}

/// The period setting: a positive duration.
pub open spec fn every_spec(v: Option<ConfigValue>) -> Result<Option<u64>, ()> {
    match opt_nanos_spec(v) {
        Ok(Some(ms)) => if ms > 0 {
            Ok(Some(ms))
        } else {
            Err(())
        },
        other => other,
    }
}

/// The keys a monitor table may hold; `set` and `push` are reserved.
pub open spec fn monitor_keys() -> Seq<Seq<char>> {
    seq![
        "every"@,
        "log"@,
        "service"@,
        "watch"@,
        "cooldown"@,
        "match_log"@,
        "ignore_log"@,
        "unique"@,
        "threshold"@,
        "exec"@,
        "notify"@,
        "set"@,
        "push"@,
    ]
}

/// Every key of `keys` is among `known`.
pub open spec fn keys_known(keys: Seq<String>, known: Seq<Seq<char>>) -> bool {
    forall|i: int| 0 <= i < keys.len() ==> known.contains(#[trigger] keys[i]@)
}

/// Whether a monitor table is valid: each setting reads, and no key is
/// unknown.
pub open spec fn monitor_table_ok(t: Table) -> bool {
    &&& every_spec(get_spec(t, "every"@)) is Ok
    &&& opt_str_spec(get_spec(t, "log"@)) is Ok
    &&& opt_str_spec(get_spec(t, "service"@)) is Ok
    &&& watch_spec(get_spec(t, "watch"@)) is Ok
    &&& opt_nanos_spec(get_spec(t, "cooldown"@)) is Ok
    &&& opt_regex_spec(get_spec(t, "match_log"@)) is Ok
    &&& opt_regex_spec(get_spec(t, "ignore_log"@)) is Ok
    &&& opt_str_spec(get_spec(t, "unique"@)) is Ok
    &&& threshold_spec(get_spec(t, "threshold"@), every_spec(get_spec(t, "every"@))->Ok_0) is Ok
    &&& exec_spec(get_spec(t, "exec"@)) is Ok
    &&& notify_spec(get_spec(t, "notify"@)) is Ok
    &&& keys_known(t.keys@, monitor_keys())
}

/// The source of an optional pattern.
pub open spec fn opt_source(p: Option<Pattern>) -> Option<Seq<char>> {
    match p {
        Some(p) => Some(p.source()),
        None => None,
    }
}

impl MonitorConfig {
    /// The settings are those that the valid table `t` gives.
    pub open spec fn from_table(&self, t: Table) -> bool {
        &&& self.every == every_spec(get_spec(t, "every"@))->Ok_0
        &&& opt_view(self.log) == opt_str_spec(get_spec(t, "log"@))->Ok_0
        &&& opt_view(self.service) == opt_str_spec(get_spec(t, "service"@))->Ok_0
        &&& views(self.watch@) == watch_spec(get_spec(t, "watch"@))->Ok_0
        &&& self.cooldown == opt_nanos_spec(get_spec(t, "cooldown"@))->Ok_0
        &&& opt_source(self.match_log) == opt_regex_spec(get_spec(t, "match_log"@))->Ok_0
        &&& opt_source(self.ignore_log) == opt_regex_spec(get_spec(t, "ignore_log"@))->Ok_0
        &&& opt_view(self.unique) == opt_str_spec(get_spec(t, "unique"@))->Ok_0
        &&& self.threshold == threshold_spec(
            get_spec(t, "threshold"@),
            every_spec(get_spec(t, "every"@))->Ok_0,
        )->Ok_0
        &&& (match self.action {
            Some(e) => exec_spec(get_spec(t, "exec"@))->Ok_0 == Some(e@),
            None => exec_spec(get_spec(t, "exec"@))->Ok_0 is None,
        })
        &&& (match self.notify {
            Some(n) => notify_spec(get_spec(t, "notify"@))->Ok_0 == Some((n.kind@, n.title@, n.body@)),
            None => notify_spec(get_spec(t, "notify"@))->Ok_0 is None,
        })
    }
}

/// Whether `t` has the key `k`.
pub open spec fn has_key(t: Table, k: Seq<char>) -> bool {
    exists|i: int| 0 <= i < t.keys@.len() && #[trigger] t.keys@[i]@ == k
}

/// Whether the setting `k` of the monitor table `t` fails its check: it
/// holds a bad value, is unknown, or is `every` when `threshold` needs it.
pub open spec fn monitor_key_fails(t: Table, k: Seq<char>) -> bool {
    let every = every_spec(get_spec(t, "every"@));
    ||| k == "every"@ && (every is Err || threshold_spec(get_spec(t, "threshold"@), every->Ok_0)
        is Err)
    ||| k == "log"@ && opt_str_spec(get_spec(t, "log"@)) is Err
    ||| k == "service"@ && opt_str_spec(get_spec(t, "service"@)) is Err
    ||| k == "watch"@ && watch_spec(get_spec(t, "watch"@)) is Err
    ||| k == "cooldown"@ && opt_nanos_spec(get_spec(t, "cooldown"@)) is Err
    ||| k == "match_log"@ && opt_regex_spec(get_spec(t, "match_log"@)) is Err
    ||| k == "ignore_log"@ && opt_regex_spec(get_spec(t, "ignore_log"@)) is Err
    ||| k == "unique"@ && opt_str_spec(get_spec(t, "unique"@)) is Err
    ||| k == "threshold"@ && threshold_spec(get_spec(t, "threshold"@), every->Ok_0) is Err
    ||| k == "exec"@ && exec_spec(get_spec(t, "exec"@)) is Err
    ||| k == "notify"@ && notify_spec(get_spec(t, "notify"@)) is Err
    ||| !monitor_keys().contains(k) && has_key(t, k)
}

/// Whether an error at `scope` (tables below the monitor's, outermost
/// first) and `k` locates a failing setting of the monitor table `t`.
pub open spec fn monitor_error_at(t: Table, scope: Seq<Seq<char>>, k: Seq<char>) -> bool {
    ||| scope.len() == 0 && monitor_key_fails(t, k)
    ||| scope == seq!["notify"@] && notify_spec(get_spec(t, "notify"@)) is Err && (k == "type"@
        || k == "title"@ || k == "body"@)
}

/// Whether `k` is among `list`.
fn contains_key(list: &Vec<String>, k: &String) -> (r: bool)
    ensures
        r == views(list@).contains(k@),
{
    let mut i: usize = 0;
    while i < list.len()
        invariant
            i <= list.len(),
            forall|j: int| 0 <= j < i ==> views(list@)[j] != k@,
        decreases list.len() - i,
    {
        if list[i] == *k {
            assert(views(list@)[i as int] == k@);
            return true;
        }
        i = i + 1;
    }
    false
}

/// The first key of `t` that is not among `known`.
fn unknown_key(t: &Table, known: &Vec<String>) -> (r: Option<String>)
    ensures
        r is None <==> keys_known(t.keys@, views(known@)),
        r matches Some(k) ==> !views(known@).contains(k@) && has_key(*t, k@),
{
    let mut i: usize = 0;
    while i < t.keys.len()
        invariant
            i <= t.keys.len(),
            forall|j: int| 0 <= j < i ==> views(known@).contains(#[trigger] t.keys@[j]@),
        decreases t.keys.len() - i,
    {
        if !contains_key(known, &t.keys[i]) {
            assert(t.keys@[i as int]@ == t.keys@[i as int]@);
            return Some(t.keys[i].clone());
        }
        i = i + 1;
    }
    None
}

/// The keys of a monitor table.
fn monitor_key_list() -> (r: Vec<String>)
    ensures
        views(r@) == monitor_keys(),
{
    let mut r: Vec<String> = Vec::new();
    r.push(String::from_str("every"));
    r.push(String::from_str("log"));
    r.push(String::from_str("service"));
    r.push(String::from_str("watch"));
    r.push(String::from_str("cooldown"));
    r.push(String::from_str("match_log"));
    r.push(String::from_str("ignore_log"));
    r.push(String::from_str("unique"));
    r.push(String::from_str("threshold"));
    r.push(String::from_str("exec"));
    r.push(String::from_str("notify"));
    r.push(String::from_str("set"));
    r.push(String::from_str("push"));
    assert(views(r@) =~= monitor_keys());
    r
}

/// Validates the settings of the monitor `name`.
pub fn parse_monitor_config(name: String, t: &Table) -> (r: Result<MonitorConfig, ConfigError>)
    ensures
        r is Ok <==> monitor_table_ok(*t),
        r matches Ok(c) ==> c.name@ == name@ && c.from_table(*t),
        r matches Err(e) ==> monitor_error_at(*t, views(e.scope@), e.key@),
{
    let every = match opt_nanos(t, &String::from_str("every")) {
        Ok(Some(ms)) => {
            if ms == 0 {
                return Err(
                    ConfigError::at(
                        &String::from_str("every"),
                        ErrorKind::Invalid(String::from_str("must be positive")),
                    ),
                );
            }
            Some(ms)
        },
        Ok(None) => None,
        Err(e) => return Err(e),
    };
    let log = match opt_str(t, &String::from_str("log")) {
        Ok(v) => v,
        Err(e) => return Err(e),
    };
    let service = match opt_str(t, &String::from_str("service")) {
        Ok(v) => v,
        Err(e) => return Err(e),
    };
    let watch = match watch_setting(t) {
        Ok(v) => v,
        Err(e) => return Err(e),
    };
    let cooldown = match opt_nanos(t, &String::from_str("cooldown")) {
        Ok(v) => v,
        Err(e) => return Err(e),
    };
    let match_log = match opt_regex(t, &String::from_str("match_log")) {
        Ok(v) => v,
        Err(e) => return Err(e),
    };
    let ignore_log = match opt_regex(t, &String::from_str("ignore_log")) {
        Ok(v) => v,
        Err(e) => return Err(e),
    };
    let unique = match opt_str(t, &String::from_str("unique")) {
        Ok(v) => v,
        Err(e) => return Err(e),
    };
    let threshold = match threshold(t, every) {
        Ok(v) => v,
        Err(e) => return Err(e),
    };
    let action = match exec_setting(t) {
        Ok(v) => v,
        Err(e) => return Err(e),
    };
    let notify = match notify_setting(t) {
        Ok(v) => v,
        Err(e) => return Err(e),
    };
    match unknown_key(t, &monitor_key_list()) {
        Some(k) => return Err(ConfigError::at(&k, ErrorKind::UnknownKey)),
        None => {},
    }
    let c = MonitorConfig {
        name,
        every,
        log,
        service,
        watch,
        cooldown,
        match_log,
        ignore_log,
        unique,
        threshold,
        action,
        notify,
    };
    Ok(c)
}

/// The login for an SMTP relay.
#[derive(Clone, Debug, PartialEq, Eq)]
pub struct SmtpLogin {
    pub host: String,
    pub username: String,
    pub password: String,
}

/// Where email notifications go, and how they are sent.
#[derive(Debug)]
pub struct SmtpConfig {
    pub from: lettre::message::Mailbox,
    pub to: lettre::message::Mailbox,
    pub login: Option<SmtpLogin>,
}

/// A named notification channel.
#[derive(Debug)]
pub struct NotificationConfig {
    pub smtp: Option<SmtpConfig>,
}

impl NotificationConfig {
    /// A channel that sends nothing.
    pub fn empty() -> (r: NotificationConfig)
        ensures
            r.smtp is None,
    {
        NotificationConfig { smtp: None }
    }
}

/// A setting of a notification table, taken from the table itself or else
/// from the `default` table.
pub open spec fn merged_get(t: Table, d: Option<Table>, k: Seq<char>) -> Option<ConfigValue> {
    match get_spec(t, k) {
        Some(v) => Some(v),
        None => match d {
            Some(d) => get_spec(d, k),
            None => None,
        },
    }
}

/// The keys that a notification table may hold: `from` and `aggregate`;
/// `to` and `smtp_host` once `from` is set; `username` and `password` once
/// `smtp_host` is set.
pub open spec fn notify_keys(t: Table, d: Option<Table>) -> Seq<Seq<char>> {
    let base = seq!["from"@, "aggregate"@];
    if merged_get(t, d, "from"@) is Some {
        if merged_get(t, d, "smtp_host"@) is Some {
            base + seq!["to"@, "smtp_host"@, "username"@, "password"@]
        } else {
            base + seq!["to"@, "smtp_host"@]
        }
    } else {
        base
    }
}

/// A string setting of a notification table that must be set.
pub open spec fn required_str(v: Option<ConfigValue>) -> bool {
    v matches Some(ConfigValue::Str(_))
}

/// Whether a notification table `t`, over the defaults `d`, is valid.
pub open spec fn notify_table_ok(t: Table, d: Option<Table>) -> bool {
    &&& match merged_get(t, d, "from"@) {
        None => true,
        Some(ConfigValue::Str(f)) => {
            &&& mailbox_valid(f@)
            &&& merged_get(t, d, "to"@) matches Some(ConfigValue::Str(to)) && mailbox_valid(to@)
            &&& match merged_get(t, d, "smtp_host"@) {
                None => true,
                Some(ConfigValue::Str(_)) => required_str(merged_get(t, d, "username"@))
                    && required_str(merged_get(t, d, "password"@)),
                Some(_) => false,
            }
        },
        Some(_) => false,
    }
    &&& match merged_get(t, d, "aggregate"@) {
        None => true,
        Some(ConfigValue::Str(a)) => nanos_spec(a@) is Some,
        Some(_) => false,
    }
    &&& keys_known(t.keys@, notify_keys(t, d))
    &&& (d matches Some(d) ==> keys_known(d.keys@, notify_keys(t, Some(d))))
}

/// Whether `v` is a string that is a valid mailbox.
pub open spec fn valid_mailbox(v: Option<ConfigValue>) -> bool {
    match v {
        Some(ConfigValue::Str(s)) => mailbox_valid(s@),
        _ => false,
    }
}

/// Whether `v` is a string that is a valid duration.
pub open spec fn valid_duration(v: Option<ConfigValue>) -> bool {
    match v {
        Some(ConfigValue::Str(s)) => nanos_spec(s@) is Some,
        _ => false,
    }
}

/// Whether `v` is set but not a string.
pub open spec fn wrong_type(v: Option<ConfigValue>) -> bool {
    v is Some && !required_str(v)
}

/// Whether the optional table `d` has the key `k`.
pub open spec fn opt_has_key(d: Option<Table>, k: Seq<char>) -> bool {
    match d {
        Some(d) => has_key(d, k),
        None => false,
    }
}

/// Whether the setting `k` of the notification table `t`, over the
/// defaults `d`, fails its check: a bad value, a missing one that an other
/// setting needs, or an unknown key.
pub open spec fn notify_key_fails(t: Table, d: Option<Table>, k: Seq<char>) -> bool {
    let from = merged_get(t, d, "from"@);
    let host = merged_get(t, d, "smtp_host"@);
    let aggregate = merged_get(t, d, "aggregate"@);
    ||| k == "from"@ && (wrong_type(from) || (required_str(from) && !valid_mailbox(from)))
    ||| k == "to"@ && required_str(from) && !valid_mailbox(merged_get(t, d, "to"@))
    ||| k == "smtp_host"@ && required_str(from) && wrong_type(host)
    ||| (k == "username"@ || k == "password"@) && required_str(from) && required_str(host)
        && !required_str(merged_get(t, d, k))
    ||| k == "aggregate"@ && (wrong_type(aggregate) || (required_str(aggregate) && !valid_duration(
        aggregate,
    )))
    ||| !notify_keys(t, d).contains(k) && (has_key(t, k) || opt_has_key(d, k))
}

/// Whether `n` is what the valid notification table `t`, over the defaults
/// `d`, gives: SMTP exactly when `from` is set, a login exactly when
/// `smtp_host` is set, with the login's settings.
pub open spec fn notify_result(n: NotificationConfig, t: Table, d: Option<Table>) -> bool {
    &&& (n.smtp is Some <==> merged_get(t, d, "from"@) is Some)
    &&& (n.smtp matches Some(s) ==> (s.login is Some <==> merged_get(t, d, "smtp_host"@) is Some))
    &&& (n.smtp matches Some(s) ==> (s.login matches Some(l) ==> {
        &&& merged_get(t, d, "smtp_host"@) == Some(ConfigValue::Str(l.host))
        &&& merged_get(t, d, "username"@) == Some(ConfigValue::Str(l.username))
        &&& merged_get(t, d, "password"@) == Some(ConfigValue::Str(l.password))
    }))
}

/// Reads a setting of a notification table, or of its defaults.
fn merged<'a>(t: &Table<'a>, d: Option<&Table<'a>>, key: &str) -> (r: Option<&'a ConfigValue>)
    ensures
        match r {
            Some(v) => merged_get(*t, opt_table(d), key@) == Some(*v),
            None => merged_get(*t, opt_table(d), key@) is None,
        },
{
    let k = String::from_str(key);
    match table_get(t, &k) {
        Some(v) => Some(v),
        None => match d {
            Some(d) => table_get(d, &k),
            None => None,
        },
    }
}

/// The table an optional reference points to.
pub open spec fn opt_table<'a>(d: Option<&Table<'a>>) -> Option<Table<'a>> {
    match d {
        Some(d) => Some(*d),
        None => None,
    }
}

/// Reads a string setting that must be set.
fn required<'a>(t: &Table<'a>, d: Option<&Table<'a>>, key: &str) -> (r: Result<&'a String, ConfigError>)
    ensures
        r is Ok <==> required_str(merged_get(*t, opt_table(d), key@)),
        r matches Err(e) ==> e.key@ == key@ && e.scope@.len() == 0,
        r matches Ok(s) ==> merged_get(*t, opt_table(d), key@) == Some(ConfigValue::Str(*s)),
{
    match merged(t, d, key) {
        Some(ConfigValue::Str(s)) => Ok(s),
        Some(_) => Err(ConfigError::at(&String::from_str(key), ErrorKind::WrongType)),
        None => Err(ConfigError::at(&String::from_str(key), ErrorKind::Missing)),
    }
}

/// The keys a notification table may hold, given whether `from` and
/// `smtp_host` are set.
fn key_list(from: bool, host: bool) -> (r: Vec<String>)
    ensures
        from ==> host ==> views(r@) == seq!["from"@, "aggregate"@] + seq![
            "to"@,
            "smtp_host"@,
            "username"@,
            "password"@,
        ],
        from ==> !host ==> views(r@) == seq!["from"@, "aggregate"@] + seq!["to"@, "smtp_host"@],
        !from ==> views(r@) == seq!["from"@, "aggregate"@],
{
    let mut r: Vec<String> = Vec::new();
    r.push(String::from_str("from"));
    r.push(String::from_str("aggregate"));
    if from {
        r.push(String::from_str("to"));
        r.push(String::from_str("smtp_host"));
        if host {
            r.push(String::from_str("username"));
            r.push(String::from_str("password"));
        }
    }
    assert(from ==> host ==> views(r@) =~= seq!["from"@, "aggregate"@] + seq![
        "to"@,
        "smtp_host"@,
        "username"@,
        "password"@,
    ]);
    assert(from ==> !host ==> views(r@) =~= seq!["from"@, "aggregate"@] + seq!["to"@, "smtp_host"@]);
    assert(!from ==> views(r@) =~= seq!["from"@, "aggregate"@]);
    r
}

/// Validates a notification table over the `default` table's settings.
pub fn parse_notify_config(default: Option<&Table>, config: &Table) -> (r: Result<
    NotificationConfig,
    ConfigError,
>)
    ensures
        r is Ok <==> notify_table_ok(*config, opt_table(default)),
        r matches Ok(n) ==> notify_result(n, *config, opt_table(default)),
        r matches Err(e) ==> e.scope@.len() == 0 && notify_key_fails(
            *config,
            opt_table(default),
            e.key@,
        ),
{
    let t = config;
    let d = default;
    let smtp = match merged(t, d, "from") {
        None => None,
        Some(ConfigValue::Str(f)) => {
            let from = match parse_mailbox(f) {
                Ok(m) => m,
                Err(why) => return Err(ConfigError::at(&String::from_str("from"), ErrorKind::Invalid(why))),
            };
            let to_text = match required(t, d, "to") {
                Ok(s) => s,
                Err(e) => return Err(e),
            };
            let to = match parse_mailbox(to_text) {
                Ok(m) => m,
                Err(why) => return Err(ConfigError::at(&String::from_str("to"), ErrorKind::Invalid(why))),
            };
            let login = match merged(t, d, "smtp_host") {
                None => None,
                Some(ConfigValue::Str(host)) => {
                    let username = match required(t, d, "username") {
                        Ok(s) => s,
                        Err(e) => return Err(e),
                    };
                    let password = match required(t, d, "password") {
                        Ok(s) => s,
                        Err(e) => return Err(e),
                    };
                    Some(SmtpLogin { host: host.clone(), username: username.clone(), password: password.clone() })
                },
                Some(_) => return Err(ConfigError::at(&String::from_str("smtp_host"), ErrorKind::WrongType)),
            };
            Some(SmtpConfig { from, to, login })
        },
        Some(_) => return Err(ConfigError::at(&String::from_str("from"), ErrorKind::WrongType)),
    };
    match merged(t, d, "aggregate") {
        None => {},
        Some(ConfigValue::Str(a)) => {
            match nanos(&String::from_str("aggregate"), a) {
                Ok(_) => {},
                Err(e) => return Err(e),
            }
        },
        Some(_) => return Err(ConfigError::at(&String::from_str("aggregate"), ErrorKind::WrongType)),
    }
    let has_from = merged(t, d, "from").is_some();
    let has_host = merged(t, d, "smtp_host").is_some();
    let known = key_list(has_from, has_host);
    assert(views(known@) == notify_keys(*t, opt_table(d)));
    match unknown_key(t, &known) {
        Some(k) => return Err(ConfigError::at(&k, ErrorKind::UnknownKey)),
        None => {},
    }
    match d {
        Some(d) => match unknown_key(d, &known) {
            Some(k) => return Err(ConfigError::at(&k, ErrorKind::UnknownKey)),
            None => {},
        },
        None => {},
    }
    Ok(NotificationConfig { smtp })
}

/// A validated configuration: the monitors in document order, and the
/// notification channels by name, `default` among them.
#[derive(Debug)]
pub struct Config {
    pub monitors: Vec<MonitorConfig>,
    pub notifications: Vec<(String, NotificationConfig)>,
}

/// The error `e` seen from the enclosing table `section`.
fn within(section: &String, e: ConfigError) -> (r: ConfigError)
    ensures
        views(r.scope@) == seq![section@] + views(e.scope@),
        r.key@ == e.key@,
        r.kind == e.kind,
{
    let mut scope: Vec<String> = Vec::new();
    scope.push(section.clone());
    let mut i: usize = 0;
    while i < e.scope.len()
        invariant
            i <= e.scope.len(),
            views(scope@) == seq![section@] + views(e.scope@).take(i as int),
        decreases e.scope.len() - i,
    {
        let ghost prev = scope@;
        scope.push(e.scope[i].clone());
        assert(views(scope@) =~= views(prev).push(e.scope@[i as int]@));
        assert(views(e.scope@).take(i as int + 1) =~= views(e.scope@).take(i as int).push(e.scope@[i as int]@));
        assert(views(scope@) =~= seq![section@] + views(e.scope@).take(i as int + 1));
        i = i + 1;
    }
    assert(views(e.scope@).take(i as int) =~= views(e.scope@));
    ConfigError { scope, key: e.key, kind: e.kind }
}

/// Whether a monitor entry is a valid monitor table.
pub open spec fn monitor_entry_ok(v: ConfigValue) -> bool {
    match v {
        ConfigValue::Table(k, w) => monitor_table_ok(Table { keys: &k, values: &w }),
        _ => false,
    }
}

/// Whether the `monitor` setting is a table of valid monitor tables.
pub open spec fn monitors_ok(v: Option<ConfigValue>) -> bool {
    match v {
        Some(ConfigValue::Table(names, vals)) => forall|i: int|
            0 <= i < names@.len() && i < vals@.len() ==> monitor_entry_ok(#[trigger] vals@[i]),
        _ => false,
    }
}

/// Whether a notification entry is a valid table over the defaults `d`.
pub open spec fn notify_entry_ok(v: ConfigValue, d: Option<Table>) -> bool {
    match v {
        ConfigValue::Table(k, w) => notify_table_ok(Table { keys: &k, values: &w }, d),
        _ => false,
    }
}

/// The defaults of the notification tables `nt`, when it has a valid
/// `default` table (`Some(None)` when it has none).
pub open spec fn notify_defaults(nt: Table) -> Option<Option<Table>> {
    match get_spec(nt, "default"@) {
        None => Some(None),
        Some(ConfigValue::Table(k, w)) => Some(Some(Table { keys: &k, values: &w })),
        Some(_) => None,
    }
}

/// Whether the `notify` setting is absent, or a table of valid notification
/// tables over a valid `default` table.
pub open spec fn notifications_ok(v: Option<ConfigValue>) -> bool {
    match v {
        None => true,
        Some(ConfigValue::Table(ks, vs)) => {
            let nt = Table { keys: &ks, values: &vs };
            match notify_defaults(nt) {
                None => false,
                Some(d) => {
                    &&& (d matches Some(dt) ==> notify_table_ok(dt, None))
                    &&& forall|i: int|
                        0 <= i < ks@.len() && i < vs@.len() && ks@[i]@ != "default"@ ==> notify_entry_ok(
                            #[trigger] vs@[i],
                            d,
                        )
                }
            }
        },
        Some(_) => false,
    }
}

/// The keys the root table may hold; `var` and `task` are reserved.
pub open spec fn root_keys() -> Seq<Seq<char>> {
    seq!["monitor"@, "notify"@, "var"@, "task"@]
}

/// Whether a configuration document is valid.
pub open spec fn config_ok(t: Table) -> bool {
    &&& notifications_ok(get_spec(t, "notify"@))
    &&& monitors_ok(get_spec(t, "monitor"@))
    &&& keys_known(t.keys@, root_keys())
}

/// One invalid monitor entry makes the `monitor` setting invalid.
proof fn lemma_bad_monitor_entry(names: Vec<String>, vals: Vec<ConfigValue>, i: int)
    requires
        0 <= i < names@.len(),
        i < vals@.len(),
        !monitor_entry_ok(vals@[i]),
    ensures
        !monitors_ok(Some(ConfigValue::Table(names, vals))),
{
    let mv = Some(ConfigValue::Table(names, vals));
    assert(mv->0 matches ConfigValue::Table(nn, vv) && nn@ == names@ && vv@ == vals@);
}

/// One invalid notification entry, other than `default`, makes the
/// `notify` setting invalid.
proof fn lemma_bad_notify_entry(ks: Vec<String>, vs: Vec<ConfigValue>, i: int, d: Option<Table>)
    requires
        0 <= i < ks@.len(),
        i < vs@.len(),
        ks@[i]@ != "default"@,
        notify_defaults(Table { keys: &ks, values: &vs }) == Some(d),
        !notify_entry_ok(vs@[i], d),
    ensures
        !notifications_ok(Some(ConfigValue::Table(ks, vs))),
{
}

/// Whether the value `v` of a monitor entry is a table, and an error at
/// `scope` and `k` locates a failing setting of it.
pub open spec fn monitor_value_error_at(v: ConfigValue, scope: Seq<Seq<char>>, k: Seq<char>) -> bool {
    match v {
        ConfigValue::Table(kk, ww) => monitor_error_at(Table { keys: &kk, values: &ww }, scope, k),
        _ => false,
    }
}

/// Whether an error at `scope` and `k` locates a failure in the `monitor`
/// table of entries `names` and `vals`: an entry that is not a table
/// (scope `monitor`), or a failing setting of one (scope `monitor`, the
/// monitor's name, then the scope within it).
pub open spec fn monitor_section_error(
    names: Seq<String>,
    vals: Seq<ConfigValue>,
    scope: Seq<Seq<char>>,
    k: Seq<char>,
) -> bool {
    &&& scope.len() >= 1
    &&& scope[0] == "monitor"@
    &&& {
        ||| scope.len() == 1 && exists|i: int|
            0 <= i < names.len() && i < vals.len() && #[trigger] names[i]@ == k && !(vals[i] is Table)
        ||| scope.len() >= 2 && exists|i: int|
            0 <= i < names.len() && i < vals.len() && #[trigger] names[i]@ == scope[1]
                && monitor_value_error_at(vals[i], scope.subrange(2, scope.len() as int), k)
    }
}

/// Validates the monitors of the `monitor` table.
fn parse_monitors(names: &Vec<String>, vals: &Vec<ConfigValue>) -> (r: Result<Vec<MonitorConfig>, ConfigError>)
    ensures
        r is Ok <==> monitors_ok(Some(ConfigValue::Table(*names, *vals))),
        r matches Ok(ms) ==> ms@.len() == (if names@.len() <= vals@.len() {
            names@.len()
        } else {
            vals@.len()
        }) && forall|
            i: int,
        | 0 <= i < ms@.len() ==> (#[trigger] ms@[i]).name@ == names@[i]@ && (vals@[i] matches ConfigValue::Table(k, w) && ms@[i].from_table(Table { keys: &k, values: &w })),
        r matches Err(e) ==> monitor_section_error(names@, vals@, views(e.scope@), e.key@),
{
    let mut out: Vec<MonitorConfig> = Vec::new();
    let mut i: usize = 0;
    while i < names.len() && i < vals.len()
        invariant
            out@.len() == i,
            i <= names@.len(),
            i <= vals@.len(),
            forall|j: int| 0 <= j < i ==> monitor_entry_ok(#[trigger] vals@[j]),
            forall|j: int| 0 <= j < i ==> (#[trigger] out@[j]).name@ == names@[j]@ && (vals@[j] matches ConfigValue::Table(k, w) && out@[j].from_table(Table { keys: &k, values: &w })),
        decreases names.len() - i,
    {
        let name = &names[i];
        match &vals[i] {
            ConfigValue::Table(k, w) => {
                let t = Table { keys: k, values: w };
                match parse_monitor_config(name.clone(), &t) {
                    Ok(c) => out.push(c),
                    Err(e) => {
                        proof {
                            lemma_bad_monitor_entry(*names, *vals, i as int);
                        }
                        let ghost inner_scope = views(e.scope@);
                        let inner = within(name, e);
                        let outer = within(&String::from_str("monitor"), inner);
                        assert(views(outer.scope@).subrange(2, views(outer.scope@).len() as int)
                            =~= inner_scope);
                        assert(names@[i as int]@ == name@);
                        return Err(outer);
                    },
                }
            },
            _ => {
                proof {
                    lemma_bad_monitor_entry(*names, *vals, i as int);
                }
                assert(names@[i as int]@ == name@);
                return Err(error_in("monitor", name, ErrorKind::WrongType));
            },
        }
        i = i + 1;
    }
    Ok(out)
}

/// An error about `key` inside the table `section`.
fn error_in(section: &str, key: &String, kind: ErrorKind) -> (r: ConfigError)
    ensures
        r.key@ == key@,
        r.kind == kind,
        views(r.scope@) == seq![section@],
{
    let mut scope: Vec<String> = Vec::new();
    scope.push(String::from_str(section));
    assert(views(scope@) =~= seq![section@]);
    ConfigError { scope, key: key.clone(), kind }
}

/// The indices, below `n`, of the keys other than `default`, in order.
pub open spec fn non_default_indices(ks: Seq<String>, n: int) -> Seq<int>
    decreases n,
{
    if n <= 0 {
        Seq::empty()
    } else {
        let p = non_default_indices(ks, n - 1);
        if ks[n - 1]@ != "default"@ {
            p.push(n - 1)
        } else {
            p
        }
    }
}

/// Whether `v` is a table and `n` is what it gives over the defaults `d`.
pub open spec fn notify_value_result(n: NotificationConfig, v: ConfigValue, d: Option<Table>) -> bool {
    match v {
        ConfigValue::Table(kk, ww) => notify_result(n, Table { keys: &kk, values: &ww }, d),
        _ => false,
    }
}

/// Whether `n` is the `default` channel: what the `default` table `d`
/// gives, or nothing without one.
pub open spec fn default_result(n: NotificationConfig, d: Option<Table>) -> bool {
    match d {
        None => n.smtp is None,
        Some(dt) => notify_result(n, dt, None),
    }
}

/// Whether `l` is the channel list that the `notify` setting `v` gives:
/// without one, a single `default` channel that sends nothing; with one,
/// a channel per key other than `default`, in order, then `default`.
pub open spec fn notify_list(v: Option<ConfigValue>, l: Seq<(String, NotificationConfig)>) -> bool {
    match v {
        None => l.len() == 1 && l[0].0@ == "default"@ && l[0].1.smtp is None,
        Some(ConfigValue::Table(ks, vs)) => {
            let n = if ks@.len() <= vs@.len() {
                ks@.len() as int
            } else {
                vs@.len() as int
            };
            let idx = non_default_indices(ks@, n);
            let d = notify_defaults(Table { keys: &ks, values: &vs })->0;
            &&& l.len() == idx.len() + 1
            &&& forall|j: int|
                0 <= j < idx.len() ==> (#[trigger] l[j]).0@ == ks@[idx[j]]@ && notify_value_result(
                    l[j].1,
                    vs@[idx[j]],
                    d,
                )
            &&& l.last().0@ == "default"@
            &&& default_result(l.last().1, d)
        },
        Some(_) => false,
    }
}

/// Whether `v` is a table and an error about `k` locates a failing setting
/// of it over the defaults `d`.
pub open spec fn notify_value_error_at(v: ConfigValue, d: Option<Table>, k: Seq<char>) -> bool {
    match v {
        ConfigValue::Table(kk, ww) => notify_key_fails(Table { keys: &kk, values: &ww }, d, k),
        _ => false,
    }
}

/// Whether the `default` table of the entries `ks`, `vs` has a failing
/// setting `k`.
pub open spec fn default_error_at(ks: Vec<String>, vs: Vec<ConfigValue>, k: Seq<char>) -> bool {
    match notify_defaults(Table { keys: &ks, values: &vs }) {
        Some(Some(dt)) => notify_key_fails(dt, None, k),
        _ => false,
    }
}

/// Whether an error at `scope` and `k` locates a failure in the `notify`
/// setting `v`: `notify` itself not a table; `default` or another entry not
/// a table (scope `notify`); or a failing setting of an entry (scope
/// `notify` and the entry's name).
pub open spec fn notify_setting_error(v: Option<ConfigValue>, scope: Seq<Seq<char>>, k: Seq<char>) -> bool {
    match v {
        Some(ConfigValue::Table(ks, vs)) => {
            let d = notify_defaults(Table { keys: &ks, values: &vs });
            &&& scope.len() >= 1
            &&& scope[0] == "notify"@
            &&& {
                ||| scope.len() == 1 && k == "default"@ && d is None
                ||| scope.len() == 1 && k != "default"@ && exists|i: int|
                    0 <= i < ks@.len() && i < vs@.len() && #[trigger] ks@[i]@ == k && !(
                    vs@[i] is Table)
                ||| scope.len() == 2 && scope[1] == "default"@ && default_error_at(ks, vs, k)
                ||| scope.len() == 2 && scope[1] != "default"@ && exists|i: int|
                    0 <= i < ks@.len() && i < vs@.len() && #[trigger] ks@[i]@ == scope[1]
                        && notify_value_error_at(vs@[i], d->0, k)
            }
        },
        Some(_) => scope.len() == 0 && k == "notify"@,
        None => false,
    }
}

/// Whether an error at `scope` and `k` locates a failure in the document
/// `root`: `monitor` missing or not a table, an unknown root key, or a
/// failure inside `notify` or `monitor`.
pub open spec fn root_error_at(root: Table, scope: Seq<Seq<char>>, k: Seq<char>) -> bool {
    ||| scope.len() == 0 && k == "monitor"@ && !(get_spec(root, "monitor"@) matches Some(
        ConfigValue::Table(_, _),
    ))
    ||| scope.len() == 0 && !root_keys().contains(k) && has_key(root, k)
    ||| notify_setting_error(get_spec(root, "notify"@), scope, k)
    ||| match get_spec(root, "monitor"@) {
        Some(ConfigValue::Table(names, vals)) => monitor_section_error(names@, vals@, scope, k),
        _ => false,
    }
}

/// Validates the notification channels of the `notify` setting; the
/// `default` channel comes last.
fn parse_notifications(v: Option<&ConfigValue>) -> (r: Result<
    Vec<(String, NotificationConfig)>,
    ConfigError,
>)
    ensures
        r is Ok <==> notifications_ok(match v {
            Some(v) => Some(*v),
            None => None,
        }),
        r matches Ok(l) ==> notify_list(
            match v {
                Some(v) => Some(*v),
                None => None,
            },
            l@,
        ),
        r matches Err(e) ==> notify_setting_error(
            match v {
                Some(v) => Some(*v),
                None => None,
            },
            views(e.scope@),
            e.key@,
        ),
{
    let default_name = String::from_str("default");
    let mut out: Vec<(String, NotificationConfig)> = Vec::new();
    match v {
        None => {
            out.push((default_name, NotificationConfig::empty()));
            Ok(out)
        },
        Some(ConfigValue::Table(ks, vs)) => {
            let nt = Table { keys: ks, values: vs };
            let d = match table_get(&nt, &default_name) {
                None => None,
                Some(ConfigValue::Table(dk, dv)) => Some(Table { keys: dk, values: dv }),
                Some(_) => return Err(error_in("notify", &default_name, ErrorKind::WrongType)),
            };
            assert(notify_defaults(nt) == Some(opt_table(match d {
                Some(t) => Some(&t),
                None => None,
            })));
            let ghost dd = notify_defaults(nt)->0;
            let mut i: usize = 0;
            while i < ks.len() && i < vs.len()
                invariant
                    nt.keys == ks && nt.values == vs,
                    notify_defaults(nt) == Some(dd),
                    (match v {
                        Some(v) => Some(*v),
                        None => None,
                    }) == Some(ConfigValue::Table(*ks, *vs)),
                    dd == match d {
                        Some(t) => Some(t),
                        None => None::<Table>,
                    },
                    forall|j: int|
                        0 <= j < i && ks@[j]@ != "default"@ ==> notify_entry_ok(#[trigger] vs@[j], dd),
                    default_name@ == "default"@,
                    i <= ks@.len() && i <= vs@.len(),
                    out@.len() == non_default_indices(ks@, i as int).len(),
                    forall|j: int|
                        0 <= j < out@.len() ==> (#[trigger] out@[j]).0@ == ks@[non_default_indices(
                            ks@,
                            i as int,
                        )[j]]@ && notify_value_result(
                            out@[j].1,
                            vs@[non_default_indices(ks@, i as int)[j]],
                            dd,
                        ),
                decreases ks.len() - i,
            {
                if ks[i] != default_name {
                    match &vs[i] {
                        ConfigValue::Table(k, w) => {
                            let t = Table { keys: k, values: w };
                            let dref = match &d {
                                Some(t) => Some(t),
                                None => None,
                            };
                            match parse_notify_config(dref, &t) {
                                Ok(c) => {
                                    assert(notify_value_result(c, vs@[i as int], dd));
                                    out.push((ks[i].clone(), c));
                                },
                                Err(e) => {
                                    proof {
                                        lemma_bad_notify_entry(*ks, *vs, i as int, dd);
                                    }
                                    assert(views(e.scope@) =~= Seq::<Seq<char>>::empty());
                                    assert(notify_value_error_at(vs@[i as int], dd, e.key@));
                                    let inner = within(&ks[i], e);
                                    let outer = within(&String::from_str("notify"), inner);
                                    assert(views(outer.scope@) =~= seq!["notify"@, ks@[i as int]@]);
                                    return Err(outer);
                                },
                            }
                        },
                        _ => {
                            proof {
                                lemma_bad_notify_entry(*ks, *vs, i as int, dd);
                            }
                            assert(ks@[i as int]@ != "default"@);
                            return Err(error_in("notify", &ks[i], ErrorKind::WrongType));
                        },
                    }
                }
                i = i + 1;
            }
            let dc = match &d {
                Some(dt) => match parse_notify_config(None, dt) {
                    Ok(c) => c,
                    Err(e) => {
                        assert(views(e.scope@) =~= Seq::<Seq<char>>::empty());
                        let inner = within(&default_name, e);
                        let outer = within(&String::from_str("notify"), inner);
                        assert(views(outer.scope@) =~= seq!["notify"@, "default"@]);
                        return Err(outer);
                    },
                },
                None => NotificationConfig::empty(),
            };
            out.push((default_name, dc));
            Ok(out)
        },
        Some(_) => Err(ConfigError::at(&String::from_str("notify"), ErrorKind::WrongType)),
    }
}

/// Validates a whole configuration document, given as its root table.
pub fn parse(root: &Table) -> (r: Result<Config, ConfigError>)
    ensures
        r is Ok <==> config_ok(*root),
        r matches Ok(c) ==> get_spec(*root, "monitor"@) matches Some(ConfigValue::Table(names, vals))
            && c.monitors@.len() == (if names@.len() <= vals@.len() {
            names@.len()
        } else {
            vals@.len()
        }) && forall|i: int|
            0 <= i < c.monitors@.len() ==> (#[trigger] c.monitors@[i]).name@ == names@[i]@ && (
            vals@[i] matches ConfigValue::Table(k, w) && c.monitors@[i].from_table(
                Table { keys: &k, values: &w },
            )),
        r matches Ok(c) ==> notify_list(get_spec(*root, "notify"@), c.notifications@),
        r matches Err(e) ==> root_error_at(*root, views(e.scope@), e.key@),
{
    let notifications = match parse_notifications(table_get(root, &String::from_str("notify"))) {
        Ok(n) => n,
        Err(e) => return Err(e),
    };
    let key = String::from_str("monitor");
    let monitors = match table_get(root, &key) {
        None => return Err(ConfigError::at(&key, ErrorKind::Missing)),
        Some(ConfigValue::Table(names, vals)) => match parse_monitors(names, vals) {
            Ok(m) => m,
            Err(e) => return Err(e),
        },
        Some(_) => return Err(ConfigError::at(&key, ErrorKind::WrongType)),
    };
    let mut known: Vec<String> = Vec::new();
    known.push(String::from_str("monitor"));
    known.push(String::from_str("notify"));
    known.push(String::from_str("var"));
    known.push(String::from_str("task"));
    assert(views(known@) =~= root_keys());
    match unknown_key(root, &known) {
        Some(k) => return Err(ConfigError::at(&k, ErrorKind::UnknownKey)),
        None => {},
    }
    Ok(Config { monitors, notifications })
}

} // verus!
