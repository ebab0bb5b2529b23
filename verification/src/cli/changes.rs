//! Which changes a command shows.

use crate::cli::error::CliError;
use vstd::prelude::*;

verus! {

/// Versions of a database: those behind one, up to another where that is given.
#[derive(Debug, Clone, Copy, PartialEq, Eq, Structural)]
pub struct ChangesWindow {
    pub from_db_version_exclusive: u64,
    pub to_db_version_inclusive: Option<u64>,
}

/// Whether a version lies in a window.
pub open spec fn in_window(w: ChangesWindow, version: u64) -> bool {
    version > w.from_db_version_exclusive && (w.to_db_version_inclusive matches Some(to) ==> version
        <= to)
}

/// The window that the arguments ask for, or the message that they do not go together.
pub open spec fn changes_window(since: Option<u64>, from: Option<u64>, to: Option<u64>) -> Result<
    ChangesWindow,
    Seq<char>,
> {
    match (since, from, to) {
        (Some(s), None, None) => Ok(
            ChangesWindow { from_db_version_exclusive: s, to_db_version_inclusive: None },
        ),
        (Some(_), _, _) => Err("use either --since or --from/--to, not both"@),
        (None, Some(f), Some(t)) => if f > t {
            Err("--from must be <= --to"@)
        } else {
            Ok(
                ChangesWindow {
                    from_db_version_exclusive: if f == 0 {
                        0
                    } else {
                        (f - 1) as u64
                    },
                    to_db_version_inclusive: Some(t),
                },
            )
        },
        (None, None, None) => Ok(
            ChangesWindow { from_db_version_exclusive: 0, to_db_version_inclusive: None },
        ),
        (None, _, _) => Err("--from and --to must be provided together"@),
    }
}

/// The window that the arguments ask for.
pub fn resolve_changes_window(
    since: Option<u64>,
    from_version: Option<u64>,
    to_version: Option<u64>,
) -> (r: Result<ChangesWindow, CliError>)
    ensures
        match r {
            Ok(w) => changes_window(since, from_version, to_version) == Ok::<
                ChangesWindow,
                Seq<char>,
            >(w),
            Err(e) => changes_window(since, from_version, to_version) == Err::<
                ChangesWindow,
                Seq<char>,
            >(e@),
        },
{
    if since.is_some() && (from_version.is_some() || to_version.is_some()) {
        return Err(
            CliError::new("use either --since or --from/--to, not both".to_owned()),
        );
    }
    if let Some(since) = since {
        return Ok(ChangesWindow { from_db_version_exclusive: since, to_db_version_inclusive: None });
    }
    match (from_version, to_version) {
        (Some(from), Some(to)) => {
            if from > to {
                return Err(CliError::new("--from must be <= --to".to_owned()));
            }
            Ok(
                ChangesWindow {
                    from_db_version_exclusive: from.saturating_sub(1),
                    to_db_version_inclusive: Some(to),
                },
            )
        },
        (None, None) => Ok(
            ChangesWindow { from_db_version_exclusive: 0, to_db_version_inclusive: None },
        ),
        _ => Err(CliError::new("--from and --to must be provided together".to_owned())),
    }
}

/// `--since` shows the versions behind the given one.
pub proof fn law_since_shows_what_follows(since: u64, version: u64)
    ensures
        changes_window(Some(since), None, None) matches Ok(w) && (in_window(w, version) <==> version
            > since),
{
}

/// `--from` and `--to` show the versions between the two, both of them too. There is no
/// change of version zero.
pub proof fn law_range_shows_both_ends(from: u64, to: u64, version: u64)
    requires
        from <= to,
        version > 0,
    ensures
        changes_window(None, Some(from), Some(to)) matches Ok(w) && (in_window(w, version) <==> from
            <= version <= to),
{
}

} // verus!
