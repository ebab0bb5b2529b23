//! The files of a new project.

use crate::path::{below, common_ancestor, has_parent, is_absolute, joined, path_has_parent, path_join, path_strip_prefix, shared_ancestor};
use crate::strings::{has_prefix, lemma_lines_behind, lemma_lines_ended, lines_from, lines_of, lists_line, next_break, split_lines};
use crate::text::{cat2, cat3, chars_of, lemma_views_push, same, views};
use vstd::prelude::*;

verus! {

/// The path that a path stands for in a directory: an absolute one stands for itself.
pub fn resolve_against_dir(base_dir: &str, path: &str) -> (r: String)
    ensures
        r@ == joined(base_dir@, path@),
        is_absolute(path@) ==> r@ == path@,
{
    path_join(base_dir, path)
}

/// The directory of a new project: the deepest one that holds both the database and the
/// schema, unless that is the root or there is none; else the current directory.
pub open spec fn project_dir_of(current: Seq<char>, db: Seq<char>, schema: Seq<char>) -> Seq<char> {
    match shared_ancestor(joined(current, db), joined(current, schema)) {
        Some(p) => if has_parent(p) {
            p
        } else {
            current
        },
        None => current,
    }
}

/// The directory of a new project.
pub fn infer_init_project_dir(current_dir: &str, db_path: &str, schema_path: &str) -> (r: String)
    ensures
        r@ == project_dir_of(current_dir@, db_path@, schema_path@),
{
    let db = resolve_against_dir(current_dir, db_path);
    let schema = resolve_against_dir(current_dir, schema_path);
    match common_ancestor(&db, &schema) {
        Some(p) => if path_has_parent(&p) {
            p
        } else {
            current_dir.to_owned()
        },
        None => current_dir.to_owned(),
    }
}

/// A path as seen from the directory of a project, where it is below that.
pub open spec fn relative_path(project_dir: Seq<char>, path: Seq<char>) -> Seq<char> {
    match below(path, project_dir) {
        Some(rest) => rest,
        None => path,
    }
}

pub fn render_project_relative_path(project_dir: &str, path: &str) -> (r: String)
    ensures
        r@ == relative_path(project_dir@, path@),
{
    match path_strip_prefix(path, project_dir) {
        Some(rest) => rest,
        None => path.to_owned(),
    }
}

/// The first `n` characters of a text, with a backslash before every backslash and every
/// quotation mark.
pub open spec fn escaped(s: Seq<char>, n: int) -> Seq<char>
    decreases n,
{
    if n <= 0 || n > s.len() {
        Seq::empty()
    } else if s[n - 1] == '\\' || s[n - 1] == '"' {
        escaped(s, n - 1).push('\\').push(s[n - 1])
    } else {
        escaped(s, n - 1).push(s[n - 1])
    }
}

/// A text as a basic string of TOML.
pub open spec fn toml_string(s: Seq<char>) -> Seq<char> {
    "\""@ + escaped(s, s.len() as int) + "\""@
}

/// A text as a basic string of TOML.
pub fn toml_basic_string(value: &str) -> (r: String)
    ensures
        r@ == toml_string(value@),
{
    let v = chars_of(value);
    let mut out = String::new();
    let mut i: usize = 0;
    assert(out@ =~= Seq::<char>::empty());
    while i < v.len()
        invariant
            v@ == value@,
            i <= v@.len(),
            out@ == escaped(value@, i as int),
        decreases v@.len() - i,
    {
        if v[i] == '\\' || v[i] == '"' {
            out.push('\\');
        }
        out.push(v[i]);
        i = i + 1;
    }
    cat3("\"", &out, "\"")
}

/// The length of an escaped text tells it from all others: two texts of which the escaped
/// forms are equal are equal.
pub proof fn law_toml_strings_are_distinct(a: Seq<char>, b: Seq<char>)
    requires
        toml_string(a) == toml_string(b),
    ensures
        a == b,
{
    reveal_strlit("\"");
    let x = escaped(a, a.len() as int);
    let y = escaped(b, b.len() as int);
    assert(toml_string(a).subrange(1, toml_string(a).len() - 1) =~= x);
    assert(toml_string(b).subrange(1, toml_string(b).len() - 1) =~= y);
    lemma_escaped_distinct(a, a.len() as int, b, b.len() as int);
    assert(a.take(a.len() as int) =~= a);
    assert(b.take(b.len() as int) =~= b);
}

proof fn lemma_escaped_distinct(a: Seq<char>, n: int, b: Seq<char>, m: int)
    requires
        0 <= n <= a.len(),
        0 <= m <= b.len(),
        escaped(a, n) == escaped(b, m),
    ensures
        a.take(n) == b.take(m),
    decreases n + m,
{
    let x = escaped(a, n);
    if n == 0 || m == 0 {
        assert(n == 0 ==> x.len() == 0);
        assert(m == 0 ==> x.len() == 0);
        assert(n == 0 && m == 0);
        assert(a.take(n) =~= b.take(m));
    } else {
        let c = a[n - 1];
        let d = b[m - 1];
        assert(x.last() == c);
        assert(x.last() == d);
        if c == '\\' || c == '"' {
            assert(x.drop_last().drop_last() =~= escaped(a, n - 1));
            assert(x.drop_last().drop_last() =~= escaped(b, m - 1));
        } else {
            assert(x.drop_last() =~= escaped(a, n - 1));
            assert(x.drop_last() =~= escaped(b, m - 1));
        }
        lemma_escaped_distinct(a, n - 1, b, m - 1);
        assert(a.take(n) =~= a.take(n - 1).push(c));
        assert(b.take(m) =~= b.take(m - 1).push(d));
    }
}

/// The configuration of a new project.
pub open spec fn default_config(project_dir: Seq<char>, db: Seq<char>, schema: Seq<char>) -> Seq<
    char,
> {
    "# Shared nanograph project defaults.\n# Keep secrets in .env.nano, not in this file.\n\n[db]\ndefault_path = "@
        + toml_string(relative_path(project_dir, db)) + "\n\n[schema]\ndefault_path = "@
        + toml_string(relative_path(project_dir, schema))
        + "\n\n[query]\nroots = [\"queries\"]\n\n[embedding]\nprovider = \"openai\"\nmodel = \"text-embedding-3-small\"\nbatch_size = 64\nchunk_size = 0\nchunk_overlap_chars = 128\n\n# Example:\n# [query_aliases.search]\n# query = \"queries/search.gq\"\n# name = \"semantic_search\"\n# args = [\"q\"]\n# format = \"table\"\n"@
}

/// The configuration of a new project.
pub fn default_nanograph_toml(project_dir: &str, db_path: &str, schema_path: &str) -> (r: String)
    ensures
        r@ == default_config(project_dir@, db_path@, schema_path@),
{
    let schema_value = toml_basic_string(&render_project_relative_path(project_dir, schema_path));
    let db_value = toml_basic_string(&render_project_relative_path(project_dir, db_path));
    let mut s = cat3(
        "# Shared nanograph project defaults.\n# Keep secrets in .env.nano, not in this file.\n\n[db]\ndefault_path = ",
        &db_value,
        "\n\n[schema]\ndefault_path = ",
    );
    s.append(&schema_value);
    s.append(
        "\n\n[query]\nroots = [\"queries\"]\n\n[embedding]\nprovider = \"openai\"\nmodel = \"text-embedding-3-small\"\nbatch_size = 64\nchunk_size = 0\nchunk_overlap_chars = 128\n\n# Example:\n# [query_aliases.search]\n# query = \"queries/search.gq\"\n# name = \"semantic_search\"\n# args = [\"q\"]\n# format = \"table\"\n",
    );
    s
}

/// The settings of a new project, all of them commented out.
pub open spec fn default_dotenv() -> Seq<char> {
    "# Local-only nanograph secrets and overrides.\n# Do not commit this file.\n# OPENAI_API_KEY=sk-...\n# NANOGRAPH_EMBEDDINGS_MOCK=1\n"@
}

/// A file to be written.
#[derive(Debug)]
pub struct ScaffoldFile {
    pub path: String,
    pub contents: String,
}

impl View for ScaffoldFile {
    type V = (Seq<char>, Seq<char>);

    open spec fn view(&self) -> (Seq<char>, Seq<char>) {
        (self.path@, self.contents@)
    }
}

/// The files that are generated for a new project: those that are not there yet. What git
/// is told to leave out is `gitignore_text`.
pub open spec fn missing_files(
    project_dir: Seq<char>,
    db: Seq<char>,
    schema: Seq<char>,
    config_exists: bool,
    dotenv_exists: bool,
) -> Seq<(Seq<char>, Seq<char>)> {
    let none: Seq<(Seq<char>, Seq<char>)> = Seq::empty();
    let first = if config_exists {
        none
    } else {
        none.push(
            (joined(project_dir, "nanograph.toml"@), default_config(project_dir, db, schema)),
        )
    };
    if dotenv_exists {
        first
    } else {
        first.push((joined(project_dir, ".env.nano"@), default_dotenv()))
    }
}

/// The files that are generated for a new project: those that are not there yet. `scaffold`
/// gives them together with the `.gitignore` that goes with them.
pub fn scaffold_project_files(
    project_dir: &str,
    db_path: &str,
    schema_path: &str,
    config_exists: bool,
    dotenv_exists: bool,
) -> (r: Vec<ScaffoldFile>)
    ensures
        views(r@) == missing_files(
            project_dir@,
            db_path@,
            schema_path@,
            config_exists,
            dotenv_exists,
        ),
{
    let mut out: Vec<ScaffoldFile> = Vec::new();
    assert(views(out@) =~= Seq::<(Seq<char>, Seq<char>)>::empty());
    if !config_exists {
        let file = ScaffoldFile {
            path: path_join(project_dir, "nanograph.toml"),
            contents: default_nanograph_toml(project_dir, db_path, schema_path),
        };
        proof {
            lemma_views_push(out@, file);
        }
        out.push(file);
    }
    if !dotenv_exists {
        let file = ScaffoldFile {
            path: path_join(project_dir, ".env.nano"),
            contents: "# Local-only nanograph secrets and overrides.\n# Do not commit this file.\n# OPENAI_API_KEY=sk-...\n# NANOGRAPH_EMBEDDINGS_MOCK=1\n".to_owned(),
        };
        proof {
            lemma_views_push(out@, file);
        }
        out.push(file);
    }
    out
}

/// A project that has both its files gets no new ones.
pub proof fn law_scaffolding_is_done_once(project_dir: Seq<char>, db: Seq<char>, schema: Seq<char>)
    ensures
        missing_files(project_dir, db, schema, true, true).len() == 0,
{
}

/// A `.gitignore` that lists the secrets file: the one that is there, with that line behind
/// its own where it lacks it.
pub open spec fn gitignore_text(existing: Seq<char>) -> Seq<char> {
    if lists_line(existing, ".env.nano"@) {
        existing
    } else if existing.len() == 0 || existing.last() == '\n' {
        existing + ".env.nano\n"@
    } else {
        existing.push('\n') + ".env.nano\n"@
    }
}

/// The text of a file that may be missing.
pub open spec fn existing_text(existing: Option<&String>) -> Seq<char> {
    match existing {
        Some(t) => t@,
        None => Seq::empty(),
    }
}

/// The `.gitignore` to be written so that git leaves out the secrets file; nothing where the
/// one that is there lists it already.
pub fn gitignore_after(existing: Option<&String>) -> (r: Option<String>)
    ensures
        match r {
            None => lists_line(existing_text(existing), ".env.nano"@),
            Some(t) => !lists_line(existing_text(existing), ".env.nano"@) && t@ == gitignore_text(
                existing_text(existing),
            ),
        },
{
    let text = match existing {
        Some(t) => t.as_str().to_owned(),
        None => "".to_owned(),
    };
    proof {
        reveal_strlit("");
        assert(text@ =~= existing_text(existing));
    }
    let lines = split_lines(&text);
    let mut i: usize = 0;
    while i < lines.len()
        invariant
            i <= lines@.len(),
            views(lines@) == lines_of(text@),
            text@ == existing_text(existing),
            forall|k: int| 0 <= k < i ==> #[trigger] views(lines@)[k] != ".env.nano"@,
        decreases lines@.len() - i,
    {
        assert(views(lines@)[i as int] == lines@[i as int]@);
        if same(&lines[i], ".env.nano") {
            assert(lines_of(text@)[i as int] == ".env.nano"@);
            return None;
        }
        i = i + 1;
    }
    let v = chars_of(&text);
    let n: usize = v.len();
    let mut out = text;
    if n > 0 && v[n - 1] != '\n' {
        out.push('\n');
    }
    Some(cat2(&out, ".env.nano\n"))
}

/// What `init` writes into a project.
#[derive(Debug)]
pub struct Scaffold {
    pub generated: Vec<ScaffoldFile>,
    pub gitignore: Option<ScaffoldFile>,
}

/// What a new project gets: the files that are not there yet and, where the secrets file is
/// one of them, a `.gitignore` that lists it. `gitignore` is the text of the one that is
/// there.
pub fn scaffold(
    project_dir: &str,
    db_path: &str,
    schema_path: &str,
    config_exists: bool,
    dotenv_exists: bool,
    gitignore: Option<&String>,
) -> (r: Scaffold)
    ensures
        views(r.generated@) == missing_files(
            project_dir@,
            db_path@,
            schema_path@,
            config_exists,
            dotenv_exists,
        ),
        match r.gitignore {
            Some(f) => !dotenv_exists && !lists_line(existing_text(gitignore), ".env.nano"@) && f@
                == (joined(project_dir@, ".gitignore"@), gitignore_text(existing_text(gitignore))),
            None => dotenv_exists || lists_line(existing_text(gitignore), ".env.nano"@),
        },
{
    let generated = scaffold_project_files(
        project_dir,
        db_path,
        schema_path,
        config_exists,
        dotenv_exists,
    );
    let gitignore = if dotenv_exists {
        None
    } else {
        match gitignore_after(gitignore) {
            Some(contents) => Some(
                ScaffoldFile { path: path_join(project_dir, ".gitignore"), contents },
            ),
            None => None,
        }
    };
    Scaffold { generated, gitignore }
}

/// The `.gitignore` left behind lists the secrets file and begins with all that was there.
pub proof fn law_secrets_are_ignored(existing: Seq<char>)
    ensures
        lists_line(gitignore_text(existing), ".env.nano"@),
        has_prefix(gitignore_text(existing), existing),
{
    if !lists_line(existing, ".env.nano"@) {
        if existing.len() == 0 || existing.last() == '\n' {
            lemma_ignored_behind(existing);
            assert(gitignore_text(existing).take(existing.len() as int) =~= existing);
        } else {
            lemma_ignored_behind(existing.push('\n'));
            assert(gitignore_text(existing).take(existing.len() as int) =~= existing);
        }
        assert(lines_of(gitignore_text(existing)).last() == ".env.nano"@);
    } else {
        assert(existing.take(existing.len() as int) =~= existing);
    }
}

proof fn lemma_ignored_behind(a: Seq<char>)
    requires
        a.len() > 0 ==> a.last() == '\n',
    ensures
        lines_of(a + ".env.nano\n"@) == lines_of(a).push(".env.nano"@),
{
    reveal_strlit(".env.nano\n");
    reveal_strlit(".env.nano");
    let t = a + ".env.nano\n"@;
    let n = a.len() as int;
    lemma_lines_behind(a, ".env.nano\n"@, 0, Seq::empty());
    assert(forall|k: int| 0 <= k < 9 ==> t[n + k] == ".env.nano"@[k]);
    assert(t[n] == '.' && t[n + 1] == 'e' && t[n + 2] == 'n' && t[n + 3] == 'v' && t[n + 4] == '.'
        && t[n + 5] == 'n' && t[n + 6] == 'a' && t[n + 7] == 'n' && t[n + 8] == 'o' && t[n + 9]
        == '\n');
    assert(t.len() == n + 10);
    reveal_with_fuel(next_break, 11);
    assert(next_break(t, n) == n + 9);
    assert(t.subrange(n, n + 9) =~= ".env.nano"@);
    reveal_with_fuel(lines_from, 3);
}

/// The `.gitignore` left behind keeps every line that was there, in place. A last line that
/// ends with a bare carriage return is left out: a line feed behind it makes that return a
/// part of the line's end.
pub proof fn law_ignored_lines_stay(existing: Seq<char>)
    requires
        existing.len() > 0 ==> existing.last() != '\r',
    ensures
        lines_of(gitignore_text(existing)) == (if lists_line(existing, ".env.nano"@) {
            lines_of(existing)
        } else {
            lines_of(existing).push(".env.nano"@)
        }),
{
    if !lists_line(existing, ".env.nano"@) {
        if existing.len() == 0 || existing.last() == '\n' {
            lemma_ignored_behind(existing);
        } else {
            lemma_lines_ended(existing, 0, Seq::empty());
            lemma_ignored_behind(existing.push('\n'));
        }
    }
}

} // verus!
