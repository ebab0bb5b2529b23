//! What the settings of a project say, and what a new project holds.

use crate::cli::dotenv::{after_found, dotenv_entries, dotenv_value, entries_of, line_body_of, line_meaning, loaded, unescaped_from, valid_env_key, DotenvFile, DotenvLine, EnvironmentModel};
use crate::cli::lines::join_first;
use crate::cli::output_laws::holds;
use crate::cli::scaffold::{default_config, escaped, missing_files, project_dir_of, relative_path, toml_string};
use crate::path::{below, has_parent, joined, rebuilt, shared_ancestor};
use crate::string_laws::{is_directory_text, is_plain_name, law_files_are_below_their_directory};
use crate::strings::{after_prefix, find_from, lemma_find, lines_of, trimmed, trimmed_end, trimmed_start};
use vstd::prelude::*;

verus! {

// ---------------------------------------------------------------------------
// Values

/// A text written so that it can stand between double quotation marks.
pub open spec fn quotable(s: Seq<char>) -> Seq<char>
    decreases s.len(),
{
    if s.len() == 0 {
        Seq::empty()
    } else {
        let c = s[0];
        let first = if c == '\n' {
            seq!['\\', 'n']
        } else if c == '\r' {
            seq!['\\', 'r']
        } else if c == '\t' {
            seq!['\\', 't']
        } else if c == '\\' {
            seq!['\\', '\\']
        } else if c == '"' {
            seq!['\\', '"']
        } else {
            seq![c]
        };
        first + quotable(s.skip(1))
    }
}

proof fn lemma_unescaped_behind(a: Seq<char>, s: Seq<char>, i: int, acc: Seq<char>)
    requires
        0 <= i <= s.len(),
    ensures
        unescaped_from(a + s, a.len() + i, acc) == unescaped_from(s, i, acc),
    decreases s.len() - i,
{
    if i < s.len() {
        assert((a + s)[a.len() + i] == s[i]);
        if s[i] != '\\' {
            lemma_unescaped_behind(a, s, i + 1, acc.push(s[i]));
        } else if i + 1 < s.len() {
            assert((a + s)[a.len() + i + 1] == s[i + 1]);
            lemma_unescaped_behind(
                a,
                s,
                i + 2,
                acc.push(crate::cli::dotenv::unescaped_char(s[i + 1])),
            );
        }
    }
}

proof fn lemma_quotable(s: Seq<char>, acc: Seq<char>)
    ensures
        unescaped_from(quotable(s), 0, acc) == Some(acc + s),
    decreases s.len(),
{
    if s.len() == 0 {
        assert(acc + s =~= acc);
    } else {
        let c = s[0];
        let q = quotable(s);
        let rest = quotable(s.skip(1));
        assert(acc.push(c) + s.skip(1) =~= acc + s);
        lemma_quotable(s.skip(1), acc.push(c));
        if c == '\n' || c == '\r' || c == '\t' || c == '\\' || c == '"' {
            let first = seq!['\\', q[1]];
            assert(q =~= first + rest);
            lemma_unescaped_behind(first, rest, 0, acc.push(c));
            assert(q[0] == '\\');
            assert(unescaped_from(q, 0, acc) == unescaped_from(q, 2, acc.push(c)));
        } else {
            let first = seq![c];
            assert(q =~= first + rest);
            lemma_unescaped_behind(first, rest, 0, acc.push(c));
            assert(q[0] == c);
            assert(unescaped_from(q, 0, acc) == unescaped_from(q, 1, acc.push(c)));
        }
    }
}

/// A value in double quotation marks is read as the text that was written there, line breaks
/// and quotation marks included. One in single quotation marks is taken as it stands.
pub proof fn law_quoted_settings_are_read_back(s: Seq<char>)
    ensures
        dotenv_value(seq!['"'] + quotable(s) + seq!['"']) == Some(s),
        dotenv_value(seq!['\''] + s + seq!['\'']) == Some(s),
{
    let a = seq!['"'] + quotable(s) + seq!['"'];
    assert(a[0] == '"' && a.last() == '"');
    assert(a.subrange(1, a.len() - 1) =~= quotable(s));
    lemma_quotable(s, Seq::empty());
    assert(Seq::<char>::empty() + s =~= s);
    let b = seq!['\''] + s + seq!['\''];
    assert(b[0] == '\'' && b.last() == '\'');
    assert(b.subrange(1, b.len() - 1) =~= s);
}

/// A comment behind a plain value, from the first blank with a number sign behind it, does
/// not belong to the value.
pub proof fn law_comments_are_no_part_of_values(value: Seq<char>, comment: Seq<char>)
    requires
        value.len() > 0,
        value[0] != '"',
        value[0] != '\'',
        forall|i: int| 0 <= i < value.len() ==> #[trigger] value[i] != '#',
    ensures
        dotenv_value(value + " #"@ + comment) == Some(trimmed_end(value)),
        dotenv_value(value) == Some(trimmed_end(value)),
{
    reveal_strlit(" #");
    let s = value + " #"@ + comment;
    assert(s[0] == value[0]);
    let k = value.len() as int;
    assert(s.subrange(k, k + 2) =~= " #"@);
    lemma_find(s, " #"@, 0);
    let i = find_from(s, " #"@, 0)->Some_0;
    if i < k {
        assert(s.subrange(i, i + 2)[1] == s[i + 1]);
        if i + 1 < k {
            assert(s[i + 1] == value[i + 1]);
        } else {
            assert(s[k] == ' ');
        }
    }
    assert(i == k);
    assert(s.take(k) =~= value);
    lemma_find(value, " #"@, 0);
    if let Some(j) = find_from(value, " #"@, 0) {
        assert(value.subrange(j, j + 2)[1] == value[j + 1]);
    }
}

// ---------------------------------------------------------------------------
// Lines

/// A line that names a setting and its value sets it, with `export` in front or without. A
/// comment, and a line without anything, sets nothing; one without an equals sign is an
/// error, and so is one whose name is none.
pub proof fn law_lines_set_what_they_name(key: Seq<char>, value: Seq<char>, line: Seq<char>)
    requires
        trimmed(line) == line,
    ensures
        line == key + "="@ + value && valid_env_key(key) && trimmed(key) == key && after_prefix(
            line,
            "export "@,
        ) is None ==> line_meaning(line) == (match dotenv_value(trimmed(value)) {
            Some(v) => DotenvLine::Entry(key, v),
            None => DotenvLine::BadValue(key),
        }),
        line == "export "@ + key + "="@ + value && valid_env_key(key) && trimmed(key) == key
            && trimmed_start(key + "="@ + value) == key + "="@ + value ==> line_meaning(line) == (
        match dotenv_value(trimmed(value)) {
            Some(v) => DotenvLine::Entry(key, v),
            None => DotenvLine::BadValue(key),
        }),
        line.len() == 0 || line[0] == '#' ==> line_meaning(line) is Nothing,
        line.len() > 0 && line[0] != '#' && !line.contains('=') ==> line_meaning(line) is NoEquals,
{
    reveal_strlit("=");
    reveal_strlit("export ");
    let body = key + "="@ + value;
    if valid_env_key(key) {
        assert forall|i: int| 0 <= i < key.len() implies #[trigger] key[i] != '=' by {}
        lemma_find(body, "="@, 0);
        let k = key.len() as int;
        assert(body.subrange(k, k + 1) =~= "="@);
        let i = find_from(body, "="@, 0)->Some_0;
        if i < k {
            assert(body.subrange(i, i + 1)[0] == key[i]);
        }
        assert(i == k);
        assert(body.take(k) =~= key);
        assert(body.skip(k + 1) =~= value);
        if line == body {
            assert(line[0] == key[0]);
        }
        if line == "export "@ + key + "="@ + value {
            assert(line =~= "export "@ + body);
            assert(line.take(7) =~= "export "@);
            assert(line.skip(7) =~= body);
            assert(line[0] == 'e');
        }
    }
    if !line.contains('=') {
        let b = line_body_of(line);
        lemma_find(b, "="@, 0);
        lemma_body_within(line);
        if let Some(i) = find_from(b, "="@, 0) {
            assert(b.subrange(i, i + 1)[0] == b[i]);
            assert(b.contains(b[i]));
        }
    }
}

proof fn lemma_trimmed_start_within(s: Seq<char>, c: char)
    requires
        trimmed_start(s).contains(c),
    ensures
        s.contains(c),
    decreases s.len(),
{
    if trimmed_start(s) != s {
        let t = s.skip(1);
        lemma_trimmed_start_within(t, c);
        let i = choose|i: int| 0 <= i < t.len() && t[i] == c;
        assert(s[i + 1] == c);
    }
}

proof fn lemma_body_within(line: Seq<char>)
    requires
        trimmed(line) == line,
    ensures
        line_body_of(line).contains('=') ==> line.contains('='),
{
    if line_body_of(line).contains('=') {
        if let Some(rest) = after_prefix(line, "export "@) {
            lemma_trimmed_start_within(rest, '=');
            let i = choose|i: int| 0 <= i < rest.len() && rest[i] == '=';
            assert(line["export "@.len() + i] == '=');
        }
    }
}

/// Whether a line sets something, or nothing without being wrong.
pub open spec fn is_sound(line: Seq<char>) -> bool {
    line_meaning(line) is Nothing || line_meaning(line) is Entry
}

/// A file is read where every line of it is sound; then the entries are those of its lines,
/// all of them and in order, and no others.
pub proof fn law_every_sound_line_is_read(path: Seq<char>, lines: Seq<Seq<char>>, n: int)
    requires
        0 <= n <= lines.len(),
    ensures
        entries_of(path, lines, n) is Ok <==> forall|i: int| 0 <= i < n ==> is_sound(#[trigger] lines[i]),
        n > 0 && entries_of(path, lines, n) is Ok && line_meaning(lines[n - 1]) is Entry
            ==> entries_of(path, lines, n)->Ok_0.last() == (
            line_meaning(lines[n - 1])->Entry_0,
            line_meaning(lines[n - 1])->Entry_1,
        ) && entries_of(path, lines, n)->Ok_0.drop_last() == entries_of(path, lines, n - 1)->Ok_0,
        n > 0 && entries_of(path, lines, n) is Ok && line_meaning(lines[n - 1]) is Nothing
            ==> entries_of(path, lines, n) == entries_of(path, lines, n - 1),
    decreases n,
{
    if n > 0 {
        law_every_sound_line_is_read(path, lines, n - 1);
        if entries_of(path, lines, n) is Ok {
            assert(is_sound(lines[n - 1]));
            if line_meaning(lines[n - 1]) is Entry {
                let before = entries_of(path, lines, n - 1)->Ok_0;
                let all = entries_of(path, lines, n)->Ok_0;
                assert(all.drop_last() =~= before);
            }
        } else if entries_of(path, lines, n - 1) is Ok {
            assert(!is_sound(lines[n - 1]));
        } else {
            let i = choose|i: int| 0 <= i < n - 1 && !is_sound(#[trigger] lines[i]);
            assert(!is_sound(lines[i]));
        }
    }
}

/// What a file changed is told, behind what was changed before: each name only once, and
/// only where it had no value. Nothing else gets a value.
pub proof fn law_only_new_settings_are_made(
    env: EnvironmentModel,
    entries: Seq<(Seq<char>, Seq<char>)>,
    n: int,
    key: Seq<char>,
)
    requires
        0 <= n <= entries.len(),
    ensures
        loaded(env, entries, n).made.len() >= env.made.len(),
        loaded(env, entries, n).made.take(env.made.len() as int) == env.made,
        forall|i: int|
            env.made.len() <= i < loaded(env, entries, n).made.len() ==> !env.values.contains_key(
                (#[trigger] loaded(env, entries, n).made[i]).0,
            ) && loaded(env, entries, n).values.contains_key(loaded(env, entries, n).made[i].0)
                && loaded(env, entries, n).values[loaded(env, entries, n).made[i].0] == loaded(
                env,
                entries,
                n,
            ).made[i].1,
        loaded(env, entries, n).values.contains_key(key) <==> env.values.contains_key(key) || exists|
            i: int,
        |
            0 <= i < n && (#[trigger] entries[i]).0 == key,
    decreases n,
{
    if n > 0 {
        law_only_new_settings_are_made(env, entries, n - 1, key);
        let before = loaded(env, entries, n - 1);
        let after = loaded(env, entries, n);
        let (k, v) = entries[n - 1];
        law_only_new_settings_are_made(env, entries, n - 1, k);
        if before.values.contains_key(k) {
            if after.values.contains_key(key) && !env.values.contains_key(key) {
                let i = choose|i: int| 0 <= i < n - 1 && (#[trigger] entries[i]).0 == key;
                assert(entries[i].0 == key);
            }
        } else {
            assert(after.made.take(env.made.len() as int) =~= before.made.take(
                env.made.len() as int,
            ));
            assert(!env.values.contains_key(k));
            assert forall|i: int| env.made.len() <= i < after.made.len() implies !env.values.contains_key(
                (#[trigger] after.made[i]).0,
            ) && after.values.contains_key(after.made[i].0) && after.values[after.made[i].0]
                == after.made[i].1 by {
                if i < before.made.len() {
                    assert(after.made[i] == before.made[i]);
                }
            }
            if after.values.contains_key(key) && !env.values.contains_key(key) {
                if key != k {
                    let i = choose|i: int| 0 <= i < n - 1 && (#[trigger] entries[i]).0 == key;
                    assert(entries[i].0 == key);
                } else {
                    assert(entries[n - 1].0 == key);
                }
            }
        }
    } else {
        assert(env.made.take(env.made.len() as int) =~= env.made);
    }
}

// ---------------------------------------------------------------------------
// New projects

proof fn lemma_unescaped_more(s: Seq<char>, i: int, acc: Seq<char>, out: Seq<char>, more: Seq<char>)
    requires
        0 <= i <= s.len(),
        unescaped_from(s, i, acc) == Some(out),
        more.len() == 1 && more[0] != '\\' || more == seq!['\\', '\\'] || more == seq!['\\', '"'],
    ensures
        unescaped_from(s + more, i, acc) == Some(out.push(more.last())),
    decreases s.len() - i,
{
    let t = s + more;
    if i < s.len() {
        assert(t[i] == s[i]);
        if s[i] != '\\' {
            lemma_unescaped_more(s, i + 1, acc.push(s[i]), out, more);
        } else {
            assert(t[i + 1] == s[i + 1]);
            lemma_unescaped_more(
                s,
                i + 2,
                acc.push(crate::cli::dotenv::unescaped_char(s[i + 1])),
                out,
                more,
            );
        }
    } else {
        reveal_with_fuel(unescaped_from, 3);
        assert(t[i] == more[0]);
        if more.len() == 2 {
            assert(t[i + 1] == more[1]);
        }
    }
}

/// A text in the settings of a project stands between quotation marks, and its marks and
/// backslashes stand behind a backslash: read so, it is the text again.
pub proof fn law_toml_strings_are_read_back(s: Seq<char>, n: int)
    requires
        0 <= n <= s.len(),
    ensures
        unescaped_from(escaped(s, n), 0, Seq::empty()) == Some(s.take(n)),
        toml_string(s).len() >= 2,
        toml_string(s)[0] == '"',
        toml_string(s).last() == '"',
        toml_string(s).subrange(1, toml_string(s).len() - 1) == escaped(s, s.len() as int),
    decreases n,
{
    reveal_strlit("\"");
    assert(toml_string(s).subrange(1, toml_string(s).len() - 1) =~= escaped(s, s.len() as int));
    if n > 0 {
        law_toml_strings_are_read_back(s, n - 1);
        let c = s[n - 1];
        let before = escaped(s, n - 1);
        let more = if c == '\\' || c == '"' {
            seq!['\\', c]
        } else {
            seq![c]
        };
        assert(escaped(s, n) =~= before + more);
        lemma_unescaped_more(before, 0, Seq::empty(), s.take(n - 1), more);
        assert(s.take(n) =~= s.take(n - 1).push(c));
    } else {
        assert(s.take(0) =~= Seq::<char>::empty());
    }
}

/// The settings of a new project name the database under `[db]` and the schema under
/// `[schema]`, each by its path from the project.
pub proof fn law_new_settings_name_their_files(project_dir: Seq<char>, db: Seq<char>, schema: Seq<char>)
    ensures
        holds(
            default_config(project_dir, db, schema),
            "[db]\ndefault_path = "@ + toml_string(relative_path(project_dir, db)),
        ),
        holds(
            default_config(project_dir, db, schema),
            "[schema]\ndefault_path = "@ + toml_string(relative_path(project_dir, schema)),
        ),
{
    let s = default_config(project_dir, db, schema);
    let head =
        "# Shared nanograph project defaults.\n# Keep secrets in .env.nano, not in this file.\n\n"@;
    let full =
        "# Shared nanograph project defaults.\n# Keep secrets in .env.nano, not in this file.\n\n[db]\ndefault_path = "@;
    reveal_strlit(
        "# Shared nanograph project defaults.\n# Keep secrets in .env.nano, not in this file.\n\n",
    );
    reveal_strlit(
        "# Shared nanograph project defaults.\n# Keep secrets in .env.nano, not in this file.\n\n[db]\ndefault_path = ",
    );
    reveal_strlit("[db]\ndefault_path = ");
    reveal_strlit("\n\n[schema]\ndefault_path = ");
    reveal_strlit("[schema]\ndefault_path = ");
    let a = toml_string(relative_path(project_dir, db));
    let b = toml_string(relative_path(project_dir, schema));
    let w = "[db]\ndefault_path = "@ + a;
    let n = head.len() as int;
    assert(full =~= head + "[db]\ndefault_path = "@);
    assert(s.subrange(n, n + w.len() as int) =~= w);
    let v = "[schema]\ndefault_path = "@ + b;
    let m = (full + a).len() as int + 2;
    assert(s.subrange(m, m + v.len() as int) =~= v);
}

/// A project gets the files that it lacks, the settings and the secrets each at its own
/// place, and nothing that is there already.
pub proof fn law_missing_files_are_made(project_dir: Seq<char>, db: Seq<char>, schema: Seq<char>)
    ensures
        missing_files(project_dir, db, schema, false, false).len() == 2,
        missing_files(project_dir, db, schema, false, false)[0].0 == joined(
            project_dir,
            "nanograph.toml"@,
        ),
        missing_files(project_dir, db, schema, false, false)[0].1 == default_config(
            project_dir,
            db,
            schema,
        ),
        missing_files(project_dir, db, schema, false, false)[1].0 == joined(
            project_dir,
            ".env.nano"@,
        ),
        missing_files(project_dir, db, schema, false, true) == missing_files(
            project_dir,
            db,
            schema,
            false,
            false,
        ).take(1),
        missing_files(project_dir, db, schema, true, false) == missing_files(
            project_dir,
            db,
            schema,
            false,
            false,
        ).skip(1),
{
    assert(missing_files(project_dir, db, schema, false, true) =~= missing_files(
        project_dir,
        db,
        schema,
        false,
        false,
    ).take(1));
    assert(missing_files(project_dir, db, schema, true, false) =~= missing_files(
        project_dir,
        db,
        schema,
        false,
        false,
    ).skip(1));
}

/// A project stands in the directory that its database and its schema share, if that is more
/// than the root, and else where it was made.
pub proof fn law_projects_stand_above_their_files(current: Seq<char>, db: Seq<char>, schema: Seq<char>)
    ensures
        ({
            let shared = shared_ancestor(joined(current, db), joined(current, schema));
            &&& shared matches Some(p) ==> project_dir_of(current, db, schema) == (if has_parent(p) {
                p
            } else {
                current
            })
            &&& shared is None ==> project_dir_of(current, db, schema) == current
        }),
{
}

/// A file in the project is named from the project on, and one elsewhere in full.
pub proof fn law_files_are_named_from_the_project(project_dir: Seq<char>, name: Seq<char>, path: Seq<char>)
    requires
        is_directory_text(project_dir),
        is_plain_name(name),
    ensures
        relative_path(project_dir, project_dir + "/"@ + name) == name,
        below(path, project_dir) is None ==> relative_path(project_dir, path) == path,
{
    law_files_are_below_their_directory(project_dir, name);
}

/// The parts that two paths share make up a path again, with a slash between each two.
pub proof fn law_shared_parts_make_a_path(parts: Seq<Seq<char>>, n: int)
    requires
        0 <= n <= parts.len(),
        forall|k: int| 0 <= k < parts.len() ==> is_plain_name(#[trigger] parts[k]),
    ensures
        rebuilt(parts, n) == join_first(parts, "/"@, n),
        n > 0 ==> rebuilt(parts, n).len() > 0 && rebuilt(parts, n).last() != '/',
    decreases n,
{
    if n > 0 {
        law_shared_parts_make_a_path(parts, n - 1);
        let c = parts[n - 1];
        assert(is_plain_name(c));
        assert(c[0] != '/');
        assert(c[c.len() - 1] != '/');
        reveal_strlit("/");
        if n == 1 {
            assert(rebuilt(parts, 0) == Seq::<char>::empty());
        } else {
            assert((rebuilt(parts, n - 1) + "/"@ + c).last() == c.last());
        }
    }
}

// ---------------------------------------------------------------------------
// Names

/// Whether a character can stand in the name of a setting behind the first.
pub open spec fn is_setting_char(c: char) -> bool {
    'A' <= c <= 'Z' || 'a' <= c <= 'z' || '0' <= c <= '9' || c == '_'
}

/// The name of a setting is made of letters, digits and underscores, and starts with no digit.
pub proof fn law_setting_names_start_with_no_digit(key: Seq<char>)
    ensures
        valid_env_key(key) <==> key.len() > 0 && !('0' <= key[0] <= '9') && forall|i: int|
            0 <= i < key.len() ==> is_setting_char(#[trigger] key[i]),
{
    if valid_env_key(key) {
        assert forall|i: int| 0 <= i < key.len() implies is_setting_char(#[trigger] key[i]) by {}
    }
    if key.len() > 0 && !('0' <= key[0] <= '9') && forall|i: int|
        0 <= i < key.len() ==> is_setting_char(#[trigger] key[i]) {
        assert(is_setting_char(key[0]));
        assert forall|i: int| 1 <= i < key.len() implies (#[trigger] key[i] == '_'
            || crate::text::is_alnum(key[i])) by {
            assert(is_setting_char(key[i]));
        }
    }
}

/// A file of settings that is missing or cannot be read changes nothing, and neither does one
/// with a line that is wrong; any other sets what its entries name.
pub proof fn law_only_sound_files_change_settings(env: EnvironmentModel, path: Seq<char>, file: DotenvFile)
    ensures
        !(file is Source) ==> after_found(env, path, file) == env,
        file matches DotenvFile::Source(s) ==> (dotenv_entries(path, s@) is Err ==> after_found(
            env,
            path,
            file,
        ) == env),
        file matches DotenvFile::Source(s) ==> (dotenv_entries(path, s@) matches Ok(entries)
            ==> after_found(env, path, file) == loaded(env, entries, entries.len() as int)),
        forall|s: Seq<char>| #[trigger] dotenv_entries(path, s) == entries_of(
            path,
            lines_of(s),
            lines_of(s).len() as int,
        ),
{
}

} // verus!
