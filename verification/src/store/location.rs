//! Where tables are: locations as the namespace gives them, and paths.

use crate::error::{ErrorModel, NanoError};
use crate::path::{below, is_absolute, joined, path_is_absolute, path_join, path_strip_prefix};
use crate::store::uri::{local_view, may_name, parse_url, text_path, url_parsed, url_to_file_path, LocalPath, LocalPathModel};
use crate::text::{cat2, same};
use vstd::prelude::*;

verus! {

/// Whether a location is a file URI.
pub open spec fn is_file_uri(location: Seq<char>) -> bool {
    url_parsed(location) matches Some((scheme, _)) && scheme == "file"@
}

/// The path of a location: that of the file that a file URI names, which is `file_path`;
/// else the location as a path, below the database where it is relative.
pub open spec fn local_path(
    db_dir: Seq<char>,
    location: Seq<char>,
    file_path: Option<LocalPathModel>,
) -> Result<LocalPathModel, Seq<char>> {
    if is_file_uri(location) {
        match file_path {
            Some(p) => Ok(p),
            None => Err("failed to convert file URI to local path: "@ + location),
        }
    } else if is_absolute(location) {
        Ok(text_path(location))
    } else {
        Ok(text_path(joined(db_dir, location)))
    }
}

/// Whether a result is the path, or the refusal the one, that a spec gives.
pub open spec fn yields_path(
    r: Result<LocalPath, NanoError>,
    m: Result<LocalPathModel, Seq<char>>,
) -> bool {
    match r {
        Ok(p) => m == Ok::<LocalPathModel, Seq<char>>(p@),
        Err(e) => m matches Err(text) && e@ == ErrorModel::Lance(text),
    }
}

/// The path of a location; `file_path` is that of a location that is a file URI.
pub fn local_path_at(db_dir: &str, location: &str, file_path: Option<LocalPath>) -> (r: Result<
    LocalPath,
    NanoError,
>)
    ensures
        yields_path(r, local_path(db_dir@, location@, local_view(file_path))),
{
    let file_uri = match parse_url(location) {
        Some((scheme, _)) => same(&scheme, "file"),
        None => false,
    };
    if file_uri {
        return match file_path {
            Some(p) => Ok(p),
            None => Err(
                NanoError::Lance(cat2("failed to convert file URI to local path: ", location)),
            ),
        };
    }
    if path_is_absolute(location) {
        Ok(LocalPath::of_text(location.to_owned()))
    } else {
        Ok(LocalPath::of_text(path_join(db_dir, location)))
    }
}

/// The path of a location. The path of the file that a file URI names is the machine's to
/// say, but for how it ends; an absolute path is no file URI, and stands for itself.
pub fn namespace_location_to_local_path(db_dir: &str, location: &str) -> (r: Result<
    LocalPath,
    NanoError,
>)
    ensures
        exists|file_path: Option<LocalPathModel>|
            may_name(location@, file_path) && yields_path(
                r,
                #[trigger] local_path(db_dir@, location@, file_path),
            ),
        is_absolute(location@) ==> (r matches Ok(p) && p@ == text_path(location@)),
{
    if path_is_absolute(location) {
        let file_uri = parse_url(location);
        assert(local_path(db_dir@, location@, None) == Ok::<LocalPathModel, Seq<char>>(
            text_path(location@),
        ));
        return Ok(LocalPath::of_text(location.to_owned()));
    }
    let file_path = url_to_file_path(location);
    local_path_at(db_dir, location, file_path)
}

/// The path that the manifest keeps of a table: relative to the database where the table is
/// below it, else a fallback.
pub open spec fn kept_path(
    db_path: Seq<char>,
    local: Result<LocalPathModel, Seq<char>>,
    fallback: Seq<char>,
) -> Seq<char> {
    match local {
        Err(_) => fallback,
        Ok(p) => match below(p.text, db_path) {
            Some(rest) => rest,
            None => fallback,
        },
    }
}

/// The path that the manifest keeps of a table at a path.
pub fn kept_dataset_path(db_path: &str, local: &LocalPath, fallback: &str) -> (r: String)
    ensures
        r@ == kept_path(db_path@, Ok(local@), fallback@),
{
    match path_strip_prefix(&local.text, db_path) {
        Some(rest) => rest,
        None => fallback.to_owned(),
    }
}

/// The path that the manifest keeps of a table at a location.
pub fn manifest_dataset_path(db_path: &str, location: &str, fallback: &str) -> (r: String)
    ensures
        exists|file_path: Option<LocalPathModel>|
            may_name(location@, file_path) && r@ == kept_path(
                db_path@,
                #[trigger] local_path(db_path@, location@, file_path),
                fallback@,
            ),
        is_absolute(location@) ==> r@ == kept_path(
            db_path@,
            Ok(text_path(location@)),
            fallback@,
        ),
{
    match namespace_location_to_local_path(db_path, location) {
        Ok(local) => kept_dataset_path(db_path, &local, fallback),
        Err(_) => fallback.to_owned(),
    }
}

} // verus!
