//! Where a database keeps its parts, how its layout is told, and how its errors read.

use crate::error::{error_text, ErrorModel};
use crate::path::below;
use crate::sort::lex_le;
use crate::store::batch::{column_named, u32_column, u64_column, utf8_column, BatchModel, ColumnModel};
use crate::store::embed::EmbedRequestModel;
use crate::store::graph_log::{changes_of, changes_of_all};
use crate::store::location::{kept_path, local_path};
use crate::store::manifest::{internal_entry, table_id_of};
use crate::store::metadata::{hash_head, mismatch_message};
use crate::store::persist::has_duplicate_names;
use crate::store::runtime::node_ids;
use crate::store::snapshot::{snapshot_store, SnapshotStore};
use crate::store::storage_generation::{generation_of, metadata_path, MetadataFile, STORAGE_METADATA_VERSION, StorageGeneration};
use crate::store::uri::{url_parsed, LocalPathModel};
use crate::store::vectors::type_requests;
use crate::string_laws::{is_directory_text, is_plain_name, law_files_are_below_their_directory};
use crate::text::decimal;
use vstd::prelude::*;
use vstd::utf8::encode_utf8;

verus! {

// ---------------------------------------------------------------------------
// Places

/// A place that is an absolute path is that path, and a relative one stands below the
/// database. A URI of a file stands where the machine says, and is refused where it says
/// nothing.
pub proof fn law_places_are_found(
    db_dir: Seq<char>,
    location: Seq<char>,
    file_path: Option<LocalPathModel>,
)
    ensures
        (url_parsed(location) matches Some(u) && u.0 == "file"@) ==> (local_path(
            db_dir,
            location,
            file_path,
        ) is Ok <==> file_path is Some),
        (url_parsed(location) matches Some(u) && u.0 == "file"@) && file_path is Some ==> local_path(
            db_dir,
            location,
            file_path,
        ) == Ok::<LocalPathModel, Seq<char>>(file_path->Some_0),
        !(url_parsed(location) matches Some(u) && u.0 == "file"@) && location.len() > 0
            && location[0] == '/' ==> (local_path(db_dir, location, file_path) matches Ok(p) && p.text
            == location && p.bytes == encode_utf8(location)),
        !(url_parsed(location) matches Some(u) && u.0 == "file"@) && location.len() > 0
            && location[0] != '/' && db_dir.len() > 0 && db_dir.last() != '/' ==> (local_path(
            db_dir,
            location,
            file_path,
        ) matches Ok(p) && p.text == db_dir + "/"@ + location),
{
}

/// The path that is kept of a table is the one from the database on where the table is below
/// it, and else the one that it had.
pub proof fn law_kept_paths_start_at_the_database(
    db_path: Seq<char>,
    name: Seq<char>,
    bytes: Seq<u8>,
    fallback: Seq<char>,
    message: Seq<char>,
)
    requires
        is_directory_text(db_path),
        is_plain_name(name),
    ensures
        kept_path(
            db_path,
            Ok(LocalPathModel { text: db_path + "/"@ + name, bytes }),
            fallback,
        ) == name,
        kept_path(db_path, Err(message), fallback) == fallback,
        forall|p: LocalPathModel|
            below(p.text, db_path) is None ==> #[trigger] kept_path(db_path, Ok(p), fallback)
                == fallback,
{
    law_files_are_below_their_directory(db_path, name);
}

/// The layout of a database is told by a file of its own, directly below it.
pub proof fn law_layout_stands_in_the_database(db_path: Seq<char>)
    requires
        db_path.len() > 0,
        db_path.last() != '/',
    ensures
        metadata_path(db_path) == db_path + "/storage.generation.json"@,
{
    reveal_strlit("storage.generation.json");
    reveal_strlit("/storage.generation.json");
    reveal_strlit("/");
    assert(db_path + "/"@ + "storage.generation.json"@ =~= db_path + "/storage.generation.json"@);
}

/// A database without that file has no layout of its own; one whose file cannot be read, or
/// is of another version, is refused; any other has the layout that the file names.
pub proof fn law_layouts_are_read(db_path: Seq<char>, file: MetadataFile)
    ensures
        generation_of(db_path, file) == Ok::<Option<StorageGeneration>, Seq<char>>(None)
            <==> file is Missing,
        file is Malformed ==> generation_of(db_path, file) is Err,
        file matches MetadataFile::Found(m) ==> (generation_of(db_path, file) is Ok <==> m.version
            == STORAGE_METADATA_VERSION),
        file matches MetadataFile::Found(m) ==> (m.version == STORAGE_METADATA_VERSION
            ==> generation_of(db_path, file) == Ok::<Option<StorageGeneration>, Seq<char>>(
            Some(m.generation),
        )),
{
}

/// A snapshot is kept in the namespace where the database has a layout, and else in the
/// manifest.
pub proof fn law_snapshots_follow_the_layout(generation: Option<StorageGeneration>)
    ensures
        snapshot_store(generation) == SnapshotStore::Namespace <==> generation is Some,
        snapshot_store(generation) == SnapshotStore::Manifest <==> generation is None,
{
}

/// A changed schema is refused with the start of the hash that was expected before the start
/// of the one that was found, eight characters of each.
pub proof fn law_hashes_are_told_in_order(expected: Seq<char>, got: Seq<char>)
    requires
        expected.len() >= 8,
        got.len() >= 8,
    ensures
        mismatch_message(expected, got)
            == "schema mismatch: schema.ir.json has been modified since last load (expected hash "@
            + expected.subrange(0, 8) + ", got "@ + got.subrange(0, 8)
            + "). Re-run 'nanograph load' to update."@,
        forall|h: Seq<char>| h.len() <= 8 ==> #[trigger] hash_head(h) == h,
{
    assert(expected.take(8) =~= expected.subrange(0, 8));
    assert(got.take(8) =~= got.subrange(0, 8));
    assert(hash_head(expected) =~= expected.subrange(0, 8));
    assert(hash_head(got) =~= got.subrange(0, 8));
}

// ---------------------------------------------------------------------------
// Order

/// Texts are ordered by the first character in which they differ, and a text comes before
/// every longer one that starts with it.
pub proof fn law_texts_are_ordered_by_their_first_difference(a: Seq<char>, b: Seq<char>, k: int)
    requires
        0 <= k <= a.len(),
        k <= b.len(),
        forall|i: int| 0 <= i < k ==> a[i] == b[i],
    ensures
        k < a.len() && k < b.len() && a[k] < b[k] ==> lex_le(a, b) && !lex_le(b, a),
        k == a.len() ==> lex_le(a, b),
        k == a.len() && a.len() < b.len() ==> !lex_le(b, a),
    decreases k,
{
    if k > 0 {
        assert(a[0] == b[0]);
        let (x, y) = (a.skip(1), b.skip(1));
        assert forall|i: int| 0 <= i < k - 1 implies x[i] == y[i] by {
            assert(a[i + 1] == b[i + 1]);
        }
        law_texts_are_ordered_by_their_first_difference(x, y, k - 1);
        if k < a.len() && k < b.len() {
            assert(x[k - 1] == a[k] && y[k - 1] == b[k]);
        }
    }
}

// ---------------------------------------------------------------------------
// Requests

/// The requests of a type are those of it, all of them and no others, in order.
pub proof fn law_requests_are_told_by_type(
    requests: Seq<EmbedRequestModel>,
    t: usize,
    n: int,
    k: int,
    r: EmbedRequestModel,
)
    requires
        0 <= n <= requests.len(),
    ensures
        forall|i: int|
            0 <= i < type_requests(requests, t, n).len() ==> (#[trigger] type_requests(
                requests,
                t,
                n,
            )[i]).type_index == t,
        0 <= k < n && requests[k].type_index == t ==> type_requests(requests, t, n).contains(
            requests[k],
        ),
        type_requests(requests, t, n).contains(r) ==> exists|j: int|
            0 <= j < n && #[trigger] requests[j] == r,
        type_requests(requests, t, n).len() <= n,
    decreases n,
{
    if n > 0 {
        law_requests_are_told_by_type(requests, t, n - 1, k, r);
        let before = type_requests(requests, t, n - 1);
        let all = type_requests(requests, t, n);
        if requests[n - 1].type_index == t {
            assert(all[before.len() as int] == requests[n - 1]);
            assert forall|i: int| 0 <= i < all.len() implies (#[trigger] all[i]).type_index == t by {
                if i < before.len() {
                    assert(all[i] == before[i]);
                }
            }
            if 0 <= k < n - 1 && requests[k].type_index == t {
                let i = choose|i: int| 0 <= i < before.len() && before[i] == requests[k];
                assert(all[i] == requests[k]);
            }
            if all.contains(r) {
                let i = choose|i: int| 0 <= i < all.len() && all[i] == r;
                if i < before.len() {
                    assert(before[i] == r);
                } else {
                    assert(requests[n - 1] == r);
                }
            }
        }
    }
}

// ---------------------------------------------------------------------------
// Errors

/// An error reads as its kind and its message; a conflict of unique values as its type, its
/// property, its value and both rows, in this order.
pub proof fn law_errors_tell_their_kind(
    m: Seq<char>,
    label: Seq<char>,
    property: Seq<char>,
    value: Seq<char>,
    first_row: nat,
    second_row: nat,
)
    ensures
        error_text(ErrorModel::Parse(m)) == "parse error: "@ + m,
        error_text(ErrorModel::Catalog(m)) == "catalog error: "@ + m,
        error_text(ErrorModel::Storage(m)) == "storage error: "@ + m,
        error_text(ErrorModel::Plan(m)) == "plan error: "@ + m,
        error_text(ErrorModel::Execution(m)) == "execution error: "@ + m,
        error_text(ErrorModel::Lance(m)) == "lance error: "@ + m,
        error_text(ErrorModel::Manifest(m)) == "manifest error: "@ + m,
        error_text(ErrorModel::Io(m)) == "io error: "@ + m,
        error_text(
            ErrorModel::UniqueConstraint {
                type_label: label,
                property,
                value,
                first_row,
                second_row,
            },
        ) == "@unique constraint violation on "@ + label + "."@ + property + ": duplicate value '"@
            + value + "' at rows "@ + decimal(first_row) + " and "@ + decimal(second_row),
{
}

// ---------------------------------------------------------------------------
// Internal tables

/// An internal table is known by its own identity, with the path, the version and the rows
/// that it has.
pub proof fn law_internal_tables_are_known_by_identity(
    table_id: Seq<char>,
    dataset_path: Seq<char>,
    version: u64,
    rows: u64,
)
    ensures
        ({
            let e = internal_entry(table_id, dataset_path, version, rows);
            &&& e.kind == "internal"@
            &&& e.type_label == table_id
            &&& e.table_id == Some(table_id)
            &&& table_id_of(e) == table_id
            &&& e.dataset_path == dataset_path
            &&& e.dataset_version == version
            &&& e.row_count == rows
            &&& e.type_id == 0
        }),
{
}

// ---------------------------------------------------------------------------
// Columns

/// The identities of a node table are those in its first column named `id`, which holds
/// unsigned numbers; a table without such a column is refused.
pub proof fn law_identities_are_read_from_their_column(b: BatchModel, label: Seq<char>)
    ensures
        node_ids(b, label) is Ok <==> column_named(b, "id"@, 0) matches Some(
            ColumnModel::UInt64(_, _),
        ),
        column_named(b, "id"@, 0) matches Some(ColumnModel::UInt64(ids, _)) ==> node_ids(b, label)
            == Ok::<Seq<u64>, Seq<char>>(ids),
{
}

/// A column of texts or of numbers is read as such from the first column of its name, and
/// refused where there is none or where it holds something else.
pub proof fn law_columns_are_read_by_their_kind(b: BatchModel, table: Seq<char>, name: Seq<char>)
    ensures
        column_named(b, name, 0) matches Some(ColumnModel::Utf8(v)) ==> utf8_column(b, table, name)
            == Ok::<Seq<Seq<char>>, Seq<char>>(v),
        column_named(b, name, 0) matches Some(ColumnModel::UInt64(v, _)) ==> u64_column(
            b,
            table,
            name,
        ) == Ok::<Seq<u64>, Seq<char>>(v),
        column_named(b, name, 0) matches Some(ColumnModel::UInt32(v, _)) ==> u32_column(
            b,
            table,
            name,
        ) == Ok::<Seq<u32>, Seq<char>>(v),
        utf8_column(b, table, name) is Ok <==> column_named(b, name, 0) matches Some(
            ColumnModel::Utf8(_),
        ),
        u64_column(b, table, name) is Ok <==> column_named(b, name, 0) matches Some(
            ColumnModel::UInt64(_, _),
        ),
        u32_column(b, table, name) is Ok <==> column_named(b, name, 0) matches Some(
            ColumnModel::UInt32(_, _),
        ),
        column_named(b, name, 0) is None ==> utf8_column(b, table, name) == Err::<
            Seq<Seq<char>>,
            Seq<char>,
        >(table + " batch missing "@ + name + " column"@),
{
}

/// The changes of several batches are those of each, in order, and one that cannot be read
/// refuses them all.
pub proof fn law_changes_of_all_batches_are_told(b: Seq<BatchModel>, n: int)
    requires
        0 <= n <= b.len(),
    ensures
        changes_of_all(b, n) is Ok <==> forall|i: int| 0 <= i < n ==> changes_of(#[trigger] b[i]) is Ok,
        n > 0 && changes_of_all(b, n) is Ok ==> changes_of_all(b, n)->Ok_0 == changes_of_all(
            b,
            n - 1,
        )->Ok_0 + changes_of(b[n - 1])->Ok_0,
    decreases n,
{
    if n > 0 {
        law_changes_of_all_batches_are_told(b, n - 1);
        if changes_of_all(b, n) is Ok {
            assert(changes_of(b[n - 1]) is Ok);
        } else if changes_of_all(b, n - 1) is Ok {
            assert(changes_of(b[n - 1]) is Err);
        } else {
            let i = choose|i: int| 0 <= i < n - 1 && !(changes_of(#[trigger] b[i]) is Ok);
            assert(!(changes_of(b[i]) is Ok));
        }
    }
}

/// A table has two fields of a name exactly where its names are not all different.
pub proof fn law_names_given_twice_are_found(names: Seq<Seq<char>>)
    ensures
        has_duplicate_names(names) <==> !names.no_duplicates(),
{
    if has_duplicate_names(names) {
        let (i, j) = choose|i: int, j: int|
            0 <= i < j < names.len() && #[trigger] names[i] == #[trigger] names[j];
        assert(names[i] == names[j]);
    } else {
        assert forall|i: int, j: int|
            0 <= i < names.len() && 0 <= j < names.len() && i != j implies names[i] != names[j] by {
            if i < j {
                assert(names[i] != names[j]);
            } else {
                assert(names[j] != names[i]);
            }
        }
    }
}

} // verus!
