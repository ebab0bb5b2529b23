//! Settings from `.env` files.

use crate::names::NameMap;
use crate::strings::{after_prefix, find_from, find_text, lines_of, split_lines, strip_prefix, trim, trim_end, trim_start, trimmed, trimmed_end, trimmed_start};
use crate::text::{alnum, cat4, cat6, cat7, chars_of, decimal, decimal_u64, is_alnum, is_lower, is_upper, lower, string_of, upper};
use vstd::prelude::*;

verus! {

// ---------------------------------------------------------------------------
// Lines

/// Whether a text can be the name of a setting: a letter or `_`, then letters, digits and
/// `_`.
pub open spec fn valid_env_key(key: Seq<char>) -> bool {
    &&& key.len() > 0
    &&& key[0] == '_' || is_upper(key[0]) || is_lower(key[0])
    &&& forall|i: int| 1 <= i < key.len() ==> (#[trigger] key[i] == '_' || is_alnum(key[i]))
}

pub fn is_valid_env_key(key: &str) -> (r: bool)
    ensures
        r == valid_env_key(key@),
{
    let v = chars_of(key);
    if v.len() == 0 {
        return false;
    }
    if !(v[0] == '_' || upper(v[0]) || lower(v[0])) {
        return false;
    }
    let mut i: usize = 1;
    while i < v.len()
        invariant
            v@ == key@,
            1 <= i <= v@.len(),
            forall|k: int| 1 <= k < i ==> (#[trigger] key@[k] == '_' || is_alnum(key@[k])),
        decreases v@.len() - i,
    {
        if !(v[i] == '_' || alnum(v[i])) {
            return false;
        }
        i = i + 1;
    }
    true
}

/// The character that an escaped character stands for.
pub open spec fn unescaped_char(c: char) -> char {
    if c == 'n' {
        '\n'
    } else if c == 'r' {
        '\r'
    } else if c == 't' {
        '\t'
    } else {
        c
    }
}

/// What stands from `i` on, with the escaped characters replaced, behind `acc`; nothing
/// where the text ends in the middle of an escape.
pub open spec fn unescaped_from(s: Seq<char>, i: int, acc: Seq<char>) -> Option<Seq<char>>
    decreases s.len() - i,
{
    if i < 0 || i >= s.len() {
        Some(acc)
    } else if s[i] != '\\' {
        unescaped_from(s, i + 1, acc.push(s[i]))
    } else if i + 1 >= s.len() {
        None
    } else {
        unescaped_from(s, i + 2, acc.push(unescaped_char(s[i + 1])))
    }
}

/// Whether a text of two characters or more starts and ends with a mark.
pub open spec fn in_marks(s: Seq<char>, mark: char) -> bool {
    s.len() >= 2 && s[0] == mark && s.last() == mark
}

/// The value that is written behind the `=` of a line.
pub open spec fn dotenv_value(s: Seq<char>) -> Option<Seq<char>> {
    if in_marks(s, '"') {
        unescaped_from(s.subrange(1, s.len() - 1), 0, Seq::empty())
    } else if in_marks(s, '\'') {
        Some(s.subrange(1, s.len() - 1))
    } else {
        match find_from(s, " #"@, 0) {
            Some(i) => Some(trimmed_end(s.take(i))),
            None => Some(trimmed_end(s)),
        }
    }
}

fn unescape(inner: &Vec<char>) -> (r: Option<String>)
    ensures
        match r {
            Some(s) => unescaped_from(inner@, 0, Seq::empty()) == Some(s@),
            None => unescaped_from(inner@, 0, Seq::empty()) is None,
        },
{
    let n: usize = inner.len();
    let mut out = String::new();
    let mut i: usize = 0;
    assert(out@ =~= Seq::<char>::empty());
    while i < n
        invariant
            i <= n == inner@.len(),
            unescaped_from(inner@, 0, Seq::empty()) == unescaped_from(inner@, i as int, out@),
        decreases n - i,
    {
        let c: char = inner[i];
        if c != '\\' {
            out.push(c);
            i = i + 1;
        } else {
            if i + 1 >= n {
                return None;
            }
            let next: char = inner[i + 1];
            out.push(
                if next == 'n' {
                    '\n'
                } else if next == 'r' {
                    '\r'
                } else if next == 't' {
                    '\t'
                } else {
                    next
                },
            );
            i = i + 2;
        }
    }
    Some(out)
}

/// Reads the value that is written behind the `=` of a line.
pub fn parse_dotenv_value(value: &str) -> (r: Result<String, &'static str>)
    ensures
        match r {
            Ok(s) => dotenv_value(value@) == Some(s@),
            Err(m) => dotenv_value(value@) is None && m@ == "unterminated escape sequence"@,
        },
{
    let v = chars_of(value);
    let n: usize = v.len();
    if n >= 2 && v[0] == '"' && v[n - 1] == '"' {
        let inner = string_of(&v, 1, n - 1);
        let w = chars_of(&inner);
        return match unescape(&w) {
            Some(s) => Ok(s),
            None => Err("unterminated escape sequence"),
        };
    }
    if n >= 2 && v[0] == '\'' && v[n - 1] == '\'' {
        return Ok(string_of(&v, 1, n - 1));
    }
    match find_text(&v, " #") {
        Some(i) => {
            let left = string_of(&v, 0, i);
            assert(left@ =~= value@.take(i as int));
            Ok(trim_end(&left))
        },
        None => Ok(trim_end(value)),
    }
}

/// What a line of a file means.
pub enum DotenvLine {
    /// Nothing: it is blank or a comment.
    Nothing,
    /// A name and a value.
    Entry(Seq<char>, Seq<char>),
    /// It has no `=`.
    NoEquals,
    /// What stands before the `=` is no name.
    BadKey(Seq<char>),
    /// The value ends in the middle of an escape.
    BadValue(Seq<char>),
}

/// A line without the white space around it and without `export` in front of it.
pub open spec fn line_body_of(line: Seq<char>) -> Seq<char> {
    match after_prefix(trimmed(line), "export "@) {
        Some(rest) => trimmed_start(rest),
        None => trimmed(line),
    }
}

/// What a line of a file means.
pub open spec fn line_meaning(line: Seq<char>) -> DotenvLine {
    let t = trimmed(line);
    if t.len() == 0 || t[0] == '#' {
        DotenvLine::Nothing
    } else {
        let body = line_body_of(line);
        match find_from(body, "="@, 0) {
            None => DotenvLine::NoEquals,
            Some(i) => {
                let key = trimmed(body.take(i));
                if !valid_env_key(key) {
                    DotenvLine::BadKey(key)
                } else {
                    match dotenv_value(trimmed(body.skip(i + 1))) {
                        Some(v) => DotenvLine::Entry(key, v),
                        None => DotenvLine::BadValue(key),
                    }
                }
            },
        }
    }
}

/// The entries of the first `n` lines of a file, or the message on the first line that
/// cannot be read.
pub open spec fn entries_of(path: Seq<char>, lines: Seq<Seq<char>>, n: int) -> Result<
    Seq<(Seq<char>, Seq<char>)>,
    Seq<char>,
>
    decreases n,
{
    if n <= 0 || n > lines.len() {
        Ok(Seq::empty())
    } else {
        match entries_of(path, lines, n - 1) {
            Err(e) => Err(e),
            Ok(s) => match line_meaning(lines[n - 1]) {
                DotenvLine::Nothing => Ok(s),
                DotenvLine::Entry(k, v) => Ok(s.push((k, v))),
                DotenvLine::NoEquals => Err(
                    "invalid .env line "@ + decimal(n as nat) + " in "@ + path
                        + ": expected KEY=VALUE"@,
                ),
                DotenvLine::BadKey(k) => Err(
                    "invalid .env key '"@ + k + "' on line "@ + decimal(n as nat) + " in "@ + path,
                ),
                DotenvLine::BadValue(k) => Err(
                    "invalid .env value for '"@ + k + "' on line "@ + decimal(n as nat) + " in "@
                        + path + ": "@ + "unterminated escape sequence"@,
                ),
            },
        }
    }
}

/// The entries of a file.
pub open spec fn dotenv_entries(path: Seq<char>, source: Seq<char>) -> Result<
    Seq<(Seq<char>, Seq<char>)>,
    Seq<char>,
> {
    entries_of(path, lines_of(source), lines_of(source).len() as int)
}

/// The texts of the entries.
pub open spec fn entry_views(v: Seq<(String, String)>) -> Seq<(Seq<char>, Seq<char>)> {
    Seq::new(v.len(), |i: int| (v[i].0@, v[i].1@))
}

/// What a line of a file means, or the message on it.
fn read_line(path: &str, line: &str, number: u64) -> (r: Result<Option<(String, String)>, String>)
    ensures
        match line_meaning(line@) {
            DotenvLine::Nothing => r matches Ok(None),
            DotenvLine::Entry(k, v) => r matches Ok(Some(e)) && e.0@ == k && e.1@ == v,
            DotenvLine::NoEquals => r matches Err(m) && m@ == "invalid .env line "@ + decimal(
                number as nat,
            ) + " in "@ + path@ + ": expected KEY=VALUE"@,
            DotenvLine::BadKey(k) => r matches Err(m) && m@ == "invalid .env key '"@ + k
                + "' on line "@ + decimal(number as nat) + " in "@ + path@,
            DotenvLine::BadValue(k) => r matches Err(m) && m@ == "invalid .env value for '"@ + k
                + "' on line "@ + decimal(number as nat) + " in "@ + path@ + ": "@
                + "unterminated escape sequence"@,
        },
{
    proof {
        reveal_strlit("=");
    }
    let t = trim(line);
    let front = chars_of(&t);
    if front.len() == 0 || front[0] == '#' {
        return Ok(None);
    }
    let body = match strip_prefix(&t, "export ") {
        Some(rest) => trim_start(&rest),
        None => t,
    };
    let v = chars_of(&body);
    let n: usize = v.len();
    match find_text(&v, "=") {
        None => Err(
            {
                let mut m = cat4("invalid .env line ", &decimal_u64(number), " in ", path);
                m.append(": expected KEY=VALUE");
                m
            },
        ),
        Some(i) => {
            let left = string_of(&v, 0, i);
            let right = string_of(&v, i + 1, n);
            assert(left@ =~= body@.take(i as int));
            assert(right@ =~= body@.skip(i + 1));
            let key = trim(&left);
            if !is_valid_env_key(&key) {
                return Err(
                    cat6(
                        "invalid .env key '",
                        &key,
                        "' on line ",
                        &decimal_u64(number),
                        " in ",
                        path,
                    ),
                );
            }
            let value_part = trim(&right);
            match parse_dotenv_value(&value_part) {
                Ok(value) => Ok(Some((key, value))),
                Err(msg) => {
                    let mut m = cat7(
                        "invalid .env value for '",
                        &key,
                        "' on line ",
                        &decimal_u64(number),
                        " in ",
                        path,
                        ": ",
                    );
                    m.append(msg);
                    Err(m)
                },
            }
        },
    }
}

/// Reads the entries of a file from its text.
#[verifier::loop_isolation(false)]
pub fn parse_dotenv_entries(path: &str, source: &str) -> (r: Result<Vec<(String, String)>, String>)
    ensures
        match r {
            Ok(v) => dotenv_entries(path@, source@) == Ok::<
                Seq<(Seq<char>, Seq<char>)>,
                Seq<char>,
            >(entry_views(v@)),
            Err(m) => dotenv_entries(path@, source@) == Err::<
                Seq<(Seq<char>, Seq<char>)>,
                Seq<char>,
            >(m@),
        },
{
    let lines = split_lines(source);
    let ghost all = lines_of(source@);
    assert(all.len() == lines@.len());
    let n: usize = lines.len();
    let mut out: Vec<(String, String)> = Vec::new();
    let mut i: usize = 0;
    assert(entry_views(out@) =~= Seq::<(Seq<char>, Seq<char>)>::empty());
    while i < n
        invariant
            i <= n == lines@.len(),
            entries_of(path@, all, i as int) == Ok::<Seq<(Seq<char>, Seq<char>)>, Seq<char>>(
                entry_views(out@),
            ),
        decreases n - i,
    {
        assert(all[i as int] == lines@[i as int]@);
        match read_line(path, &lines[i], (i + 1) as u64) {
            Ok(None) => {},
            Ok(Some(e)) => {
                let ghost before = entry_views(out@);
                let ghost pair = (e.0@, e.1@);
                out.push(e);
                assert(entry_views(out@) =~= before.push(pair));
            },
            Err(m) => {
                proof {
                    lemma_entries_stop(path@, all, i as int + 1);
                }
                return Err(m);
            },
        }
        i = i + 1;
    }
    Ok(out)
}

/// A message on a line is a message on every longer run of lines.
proof fn lemma_entries_stop(path: Seq<char>, lines: Seq<Seq<char>>, n: int)
    requires
        0 <= n <= lines.len(),
        entries_of(path, lines, n) is Err,
    ensures
        entries_of(path, lines, lines.len() as int) == entries_of(path, lines, n),
    decreases lines.len() - n,
{
    if n < lines.len() {
        lemma_entries_stop(path, lines, n + 1);
    }
}

// ---------------------------------------------------------------------------
// Settings

/// The settings of a process: their values, and those that were made, in order.
#[derive(Debug)]
pub struct Environment {
    values: NameMap<String>,
    made: Vec<(String, String)>,
}

/// The mathematical value of an `Environment`.
pub struct EnvironmentModel {
    pub values: Map<Seq<char>, Seq<char>>,
    pub made: Seq<(Seq<char>, Seq<char>)>,
}

impl View for Environment {
    type V = EnvironmentModel;

    closed spec fn view(&self) -> EnvironmentModel {
        EnvironmentModel { values: self.values@, made: entry_views(self.made@) }
    }
}

impl Environment {
    /// No settings.
    pub fn new() -> (r: Environment)
        ensures
            r@.values == Map::<Seq<char>, Seq<char>>::empty(),
            r@.made == Seq::<(Seq<char>, Seq<char>)>::empty(),
    {
        let r = Environment { values: NameMap::new(), made: Vec::new() };
        assert(r@.made =~= Seq::<(Seq<char>, Seq<char>)>::empty());
        r
    }

    /// Takes over a setting that the process has already.
    pub fn preset(&mut self, key: &str, value: &str)
        ensures
            final(self)@.values == old(self)@.values.insert(key@, value@),
            final(self)@.made == old(self)@.made,
    {
        self.values.insert(key.to_owned(), value.to_owned());
    }

    /// The value of a setting.
    pub fn get(&self, key: &str) -> (r: Option<&String>)
        ensures
            match r {
                Some(v) => self@.values.contains_key(key@) && self@.values[key@] == v@,
                None => !self@.values.contains_key(key@),
            },
    {
        self.values.get(key)
    }

    /// The settings that were made, in order.
    pub fn made(&self) -> (r: &Vec<(String, String)>)
        ensures
            entry_views(r@) == self@.made,
    {
        &self.made
    }

    /// Makes a setting.
    fn set(&mut self, key: &str, value: &str)
        ensures
            final(self)@.values == old(self)@.values.insert(key@, value@),
            final(self)@.made == old(self)@.made.push((key@, value@)),
    {
        let ghost before = entry_views(self.made@);
        self.values.insert(key.to_owned(), value.to_owned());
        self.made.push((key.to_owned(), value.to_owned()));
        assert(entry_views(self.made@) =~= before.push((key@, value@)));
    }
}

/// The settings after the first `n` entries: an entry counts only where its setting has no
/// value yet.
pub open spec fn loaded(env: EnvironmentModel, entries: Seq<(Seq<char>, Seq<char>)>, n: int) -> EnvironmentModel
    decreases n,
{
    if n <= 0 || n > entries.len() {
        env
    } else {
        let before = loaded(env, entries, n - 1);
        let (k, v) = entries[n - 1];
        if before.values.contains_key(k) {
            before
        } else {
            EnvironmentModel {
                values: before.values.insert(k, v),
                made: before.made.push((k, v)),
            }
        }
    }
}

/// How many entries of a file were taken, and how many had their setting already.
#[derive(Debug, Clone, Copy, PartialEq, Eq, Structural)]
pub struct DotenvLoadStats {
    pub loaded: usize,
    pub skipped_existing: usize,
}

/// The settings after a file was loaded. Nothing changes if a line cannot be read.
pub open spec fn after_file(env: EnvironmentModel, path: Seq<char>, source: Seq<char>) -> EnvironmentModel {
    match dotenv_entries(path, source) {
        Ok(entries) => loaded(env, entries, entries.len() as int),
        Err(_) => env,
    }
}

/// Loads the text of a file. A setting that has a value keeps it.
#[verifier::loop_isolation(false)]
pub fn load_dotenv_source(path: &str, source: &str, env: &mut Environment) -> (r: Result<
    DotenvLoadStats,
    String,
>)
    ensures
        final(env)@ == after_file(old(env)@, path@, source@),
        match r {
            Ok(stats) => dotenv_entries(path@, source@) is Ok && stats.loaded
                == final(env)@.made.len() - old(env)@.made.len() && stats.loaded
                + stats.skipped_existing == dotenv_entries(path@, source@)->Ok_0.len(),
            Err(m) => dotenv_entries(path@, source@) == Err::<
                Seq<(Seq<char>, Seq<char>)>,
                Seq<char>,
            >(m@),
        },
{
    let entries = match parse_dotenv_entries(path, source) {
        Ok(v) => v,
        Err(m) => {
            return Err(m);
        },
    };
    let ghost start = env@;
    let ghost all = entry_views(entries@);
    let n: usize = entries.len();
    let mut stats = DotenvLoadStats { loaded: 0, skipped_existing: 0 };
    let mut i: usize = 0;
    while i < n
        invariant
            i <= n == entries@.len(),
            all == entry_views(entries@),
            env@ == loaded(start, all, i as int),
            stats.loaded == env@.made.len() - start.made.len(),
            stats.loaded + stats.skipped_existing == i,
        decreases n - i,
    {
        let key = &entries[i].0;
        let value = &entries[i].1;
        assert(all[i as int] == (key@, value@));
        if env.get(key).is_some() {
            stats.skipped_existing = stats.skipped_existing + 1;
        } else {
            env.set(key, value);
            stats.loaded = stats.loaded + 1;
        }
        i = i + 1;
    }
    Ok(stats)
}

/// A file of settings as it was found.
#[derive(Debug)]
pub enum DotenvFile {
    /// There is none.
    Missing,
    /// It cannot be read, and this is the message.
    Unreadable(String),
    /// Its text.
    Source(String),
}

/// The settings after a file was loaded as it was found.
pub open spec fn after_found(env: EnvironmentModel, path: Seq<char>, file: DotenvFile) -> EnvironmentModel {
    match file {
        DotenvFile::Source(s) => after_file(env, path, s@),
        _ => env,
    }
}

/// Whether a report on a file is true: nothing of a missing file, a message of one that
/// cannot be read, and else how many of its entries were taken.
pub open spec fn load_report(
    r: Result<Option<DotenvLoadStats>, String>,
    env: EnvironmentModel,
    path: Seq<char>,
    file: DotenvFile,
) -> bool {
    match file {
        DotenvFile::Missing => r matches Ok(None),
        DotenvFile::Unreadable(e) => r matches Err(m) && m@ == e@,
        DotenvFile::Source(s) => match dotenv_entries(path, s@) {
            Ok(entries) => r matches Ok(Some(stats)) && stats.loaded == after_file(
                env,
                path,
                s@,
            ).made.len() - env.made.len() && stats.loaded + stats.skipped_existing
                == entries.len(),
            Err(e) => r matches Err(m) && m@ == e,
        },
    }
}

/// Loads a file as it was found.
pub fn load_found_dotenv(path: &str, file: &DotenvFile, env: &mut Environment) -> (r: Result<
    Option<DotenvLoadStats>,
    String,
>)
    ensures
        final(env)@ == after_found(old(env)@, path@, *file),
        load_report(r, old(env)@, path@, *file),
{
    match file {
        DotenvFile::Missing => Ok(None),
        DotenvFile::Unreadable(e) => Err(e.clone()),
        DotenvFile::Source(s) => match load_dotenv_source(path, s, env) {
            Ok(stats) => Ok(Some(stats)),
            Err(m) => Err(m),
        },
    }
}

/// Loads the files of a project: `.env.nano` first, then `.env`.
pub fn load_project_dotenv(
    nano_path: &str,
    nano: &DotenvFile,
    env_path: &str,
    dotenv: &DotenvFile,
    env: &mut Environment,
) -> (r: (Result<Option<DotenvLoadStats>, String>, Result<Option<DotenvLoadStats>, String>))
    ensures
        final(env)@ == after_found(after_found(old(env)@, nano_path@, *nano), env_path@, *dotenv),
        load_report(r.0, old(env)@, nano_path@, *nano),
        load_report(r.1, after_found(old(env)@, nano_path@, *nano), env_path@, *dotenv),
{
    let first = load_found_dotenv(nano_path, nano, env);
    let second = load_found_dotenv(env_path, dotenv, env);
    (first, second)
}

// ---------------------------------------------------------------------------
// Laws

/// A setting that has a value keeps it, whatever the entries say.
pub proof fn law_existing_settings_stay(
    env: EnvironmentModel,
    entries: Seq<(Seq<char>, Seq<char>)>,
    n: int,
    key: Seq<char>,
)
    requires
        env.values.contains_key(key),
    ensures
        loaded(env, entries, n).values.contains_key(key),
        loaded(env, entries, n).values[key] == env.values[key],
    decreases n,
{
    if n <= 0 || n > entries.len() {
    } else {
        law_existing_settings_stay(env, entries, n - 1, key);
    }
}

/// Of several entries for a setting that has no value the first counts.
pub proof fn law_first_entry_counts(
    env: EnvironmentModel,
    entries: Seq<(Seq<char>, Seq<char>)>,
    n: int,
    i: int,
)
    requires
        0 <= i < n <= entries.len(),
        !env.values.contains_key(entries[i].0),
        forall|k: int| 0 <= k < i ==> (#[trigger] entries[k]).0 != entries[i].0,
    ensures
        loaded(env, entries, n).values.contains_key(entries[i].0),
        loaded(env, entries, n).values[entries[i].0] == entries[i].1,
    decreases n,
{
    if n == i + 1 {
        lemma_not_set(env, entries, i, entries[i].0);
    } else {
        law_first_entry_counts(env, entries, n - 1, i);
    }
}

proof fn lemma_not_set(
    env: EnvironmentModel,
    entries: Seq<(Seq<char>, Seq<char>)>,
    n: int,
    key: Seq<char>,
)
    requires
        n <= entries.len(),
        !env.values.contains_key(key),
        forall|k: int| 0 <= k < n ==> (#[trigger] entries[k]).0 != key,
    ensures
        !loaded(env, entries, n).values.contains_key(key),
    decreases n,
{
    if n > 0 {
        lemma_not_set(env, entries, n - 1, key);
    }
}

/// What `.env.nano` sets, `.env` does not change.
pub proof fn law_env_nano_wins(
    env: EnvironmentModel,
    nano_path: Seq<char>,
    nano: DotenvFile,
    env_path: Seq<char>,
    dotenv: DotenvFile,
    key: Seq<char>,
)
    requires
        after_found(env, nano_path, nano).values.contains_key(key),
    ensures
        ({
            let first = after_found(env, nano_path, nano);
            let both = after_found(first, env_path, dotenv);
            both.values.contains_key(key) && both.values[key] == first.values[key]
        }),
{
    let first = after_found(env, nano_path, nano);
    match dotenv {
        DotenvFile::Source(s) => match dotenv_entries(env_path, s@) {
            Ok(entries) => {
                law_existing_settings_stay(first, entries, entries.len() as int, key);
            },
            Err(_) => {},
        },
        _ => {},
    }
}

} // verus!
