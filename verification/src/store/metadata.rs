//! The metadata of an open database: its compiled schema, catalog, and manifest.

use crate::catalog::Catalog;
use crate::error::{ErrorModel, NanoError};
use crate::path::{joined, path_join};
use crate::store::manifest::{table_id_of, DatasetEntry, DatasetEntryModel, GraphManifest, ManifestModel};
use crate::store::schema_ir::SchemaIr;
use crate::store::storage_generation::StorageGeneration;
use crate::text::{cat5, chars_of, lemma_views_push, same, string_of, views};
use vstd::prelude::*;

verus! {

/// Where a table is and which version of it counts.
#[derive(Debug)]
pub struct DatasetLocator {
    pub db_path: String,
    pub table_id: String,
    pub dataset_path: String,
    pub dataset_version: u64,
    pub row_count: u64,
    pub namespace_managed: bool,
}

/// The mathematical value of a `DatasetLocator`.
pub struct LocatorModel {
    pub db_path: Seq<char>,
    pub table_id: Seq<char>,
    pub dataset_path: Seq<char>,
    pub dataset_version: u64,
    pub row_count: u64,
    pub namespace_managed: bool,
}

impl View for DatasetLocator {
    type V = LocatorModel;

    open spec fn view(&self) -> LocatorModel {
        LocatorModel {
            db_path: self.db_path@,
            table_id: self.table_id@,
            dataset_path: self.dataset_path@,
            dataset_version: self.dataset_version,
            row_count: self.row_count,
            namespace_managed: self.namespace_managed,
        }
    }
}

/// Where the table of an entry is.
pub open spec fn locator_of(db_path: Seq<char>, e: DatasetEntryModel, managed: bool) -> LocatorModel {
    LocatorModel {
        db_path,
        table_id: table_id_of(e),
        dataset_path: joined(db_path, e.dataset_path),
        dataset_version: e.dataset_version,
        row_count: e.row_count,
        namespace_managed: managed,
    }
}

/// Where the table of an entry is.
pub fn locate(db_path: &str, e: &DatasetEntry, managed: bool) -> (r: DatasetLocator)
    ensures
        r@ == locator_of(db_path@, e@, managed),
{
    DatasetLocator {
        db_path: db_path.to_owned(),
        table_id: e.effective_table_id().to_owned(),
        dataset_path: path_join(db_path, &e.dataset_path),
        dataset_version: e.dataset_version,
        row_count: e.row_count,
        namespace_managed: managed,
    }
}

/// The metadata of an open database.
#[derive(Debug)]
pub struct DatabaseMetadata {
    pub path: String,
    pub schema_ir: SchemaIr,
    pub catalog: Catalog,
    pub manifest: GraphManifest,
}

/// How the metadata of a database is read.
#[derive(Debug, Clone, Copy, PartialEq, Eq, Structural)]
pub enum OpenStep {
    /// From the namespace.
    Namespace,
}

/// The message of a database of a layout that is no longer read.
pub open spec fn legacy_message(db_path: Seq<char>) -> Seq<char> {
    "database "@ + db_path + " uses legacy v3 storage; run `nanograph storage migrate --db "@
        + db_path + " --target lineage-native`"@
}

/// The first characters of a hash.
pub open spec fn hash_head(h: Seq<char>) -> Seq<char> {
    if h.len() <= 8 {
        h
    } else {
        h.take(8)
    }
}

/// The message of a schema that was changed behind the database's back.
pub open spec fn mismatch_message(expected: Seq<char>, got: Seq<char>) -> Seq<char> {
    "schema mismatch: schema.ir.json has been modified since last load (expected hash "@
        + hash_head(expected) + ", got "@ + hash_head(got)
        + "). Re-run 'nanograph load' to update."@
}

/// A manifest in which every table has a path: its name where it has no path of its own.
pub open spec fn with_paths(m: ManifestModel) -> ManifestModel {
    ManifestModel {
        datasets: Seq::new(m.datasets.len(), |i: int| with_path(m.datasets[i])),
        ..m
    }
}

/// An entry with a path: its name where it has no path of its own.
pub open spec fn with_path(e: DatasetEntryModel) -> DatasetEntryModel {
    if e.dataset_path.len() == 0 {
        DatasetEntryModel { dataset_path: table_id_of(e), ..e }
    } else {
        e
    }
}

fn head(h: &str) -> (r: String)
    ensures
        r@ == hash_head(h@),
{
    let v = chars_of(h);
    if v.len() <= 8 {
        h.to_owned()
    } else {
        let s = string_of(&v, 0, 8);
        assert(s@ =~= h@.take(8));
        s
    }
}

/// Fails if the schema was changed since the manifest was committed.
pub fn check_schema_hash(manifest: &GraphManifest, computed_hash: &str) -> (r: Result<(), NanoError>)
    ensures
        match r {
            Ok(()) => computed_hash@ == manifest@.schema_ir_hash,
            Err(e) => computed_hash@ != manifest@.schema_ir_hash && e@ == ErrorModel::Manifest(
                mismatch_message(manifest@.schema_ir_hash, computed_hash@),
            ),
        },
{
    if same(computed_hash, &manifest.schema_ir_hash) {
        return Ok(());
    }
    Err(
        NanoError::Manifest(
            cat5(
                "schema mismatch: schema.ir.json has been modified since last load (expected hash ",
                &head(&manifest.schema_ir_hash),
                ", got ",
                &head(computed_hash),
                "). Re-run 'nanograph load' to update.",
            ),
        ),
    )
}

fn fill_paths(entries: Vec<DatasetEntry>) -> (r: Vec<DatasetEntry>)
    ensures
        views(r@) == Seq::new(entries@.len(), |i: int| with_path(views(entries@)[i])),
{
    let ghost given = entries@;
    let ghost expected = Seq::new(given.len(), |i: int| with_path(views(given)[i]));
    let mut out: Vec<DatasetEntry> = Vec::new();
    assert(views(out@) =~= expected.take(0));
    for e in it: entries
        invariant
            it.seq() == given,
            expected == Seq::new(given.len(), |i: int| with_path(views(given)[i])),
            views(out@) == expected.take(it.index() as int),
    {
        let ghost n = it.index() as int;
        let ghost before = e@;
        let x = if e.dataset_path.as_str().is_empty() {
            let dataset_path = e.effective_table_id().to_owned();
            DatasetEntry {
                type_id: e.type_id,
                type_label: e.type_label,
                kind: e.kind,
                dataset_path,
                dataset_version: e.dataset_version,
                row_count: e.row_count,
                table_id: e.table_id,
            }
        } else {
            e
        };
        proof {
            assert(views(given)[n] == before);
            assert(x@ == with_path(before));
            lemma_views_push(out@, x);
            assert(expected.take(n + 1) =~= expected.take(n).push(x@));
        }
        out.push(x);
    }
    assert(expected.take(given.len() as int) =~= expected);
    out
}

/// The last entry of a kind and type, among the first `n`.
pub open spec fn entry_for(
    datasets: Seq<DatasetEntryModel>,
    kind: Seq<char>,
    label: Seq<char>,
    n: int,
) -> Option<DatasetEntryModel>
    decreases n,
{
    if n <= 0 {
        None
    } else if datasets[n - 1].kind == kind && datasets[n - 1].type_label == label {
        Some(datasets[n - 1])
    } else {
        entry_for(datasets, kind, label, n - 1)
    }
}

impl DatabaseMetadata {
    /// How the metadata of a database is read, once its layout is known.
    pub fn open(db_path: &str, detected: Result<Option<StorageGeneration>, NanoError>) -> (r: Result<
        OpenStep,
        NanoError,
    >)
        ensures
            match detected {
                Ok(Some(_)) => r matches Ok(s) && s == OpenStep::Namespace,
                Ok(None) => r matches Err(e) && e@ == ErrorModel::Storage(
                    legacy_message(db_path@),
                ),
                Err(e) => r matches Err(f) && f@ == e@,
            },
    {
        match detected {
            Ok(Some(StorageGeneration::V4Namespace | StorageGeneration::NamespaceLineage)) => Ok(
                OpenStep::Namespace,
            ),
            Ok(None) => Err(
                NanoError::Storage(
                    cat5(
                        "database ",
                        db_path,
                        " uses legacy v3 storage; run `nanograph storage migrate --db ",
                        db_path,
                        " --target lineage-native`",
                    ),
                ),
            ),
            Err(e) => Err(e),
        }
    }

    /// The metadata of a database in the old layout, from what was read of it.
    pub fn open_v3_legacy(
        path: String,
        schema_ir: SchemaIr,
        catalog: Catalog,
        manifest: GraphManifest,
        computed_hash: &str,
    ) -> (r: Result<DatabaseMetadata, NanoError>)
        ensures
            match r {
                Ok(m) => computed_hash@ == manifest@.schema_ir_hash && m.path@ == path@
                    && m.schema_ir@ == schema_ir@ && m.catalog@ == catalog@ && m.manifest@
                    == manifest@,
                Err(e) => computed_hash@ != manifest@.schema_ir_hash && e@ == ErrorModel::Manifest(
                    mismatch_message(manifest@.schema_ir_hash, computed_hash@),
                ),
            },
    {
        match check_schema_hash(&manifest, computed_hash) {
            Err(e) => Err(e),
            Ok(()) => Ok(DatabaseMetadata { path, schema_ir, catalog, manifest }),
        }
    }

    /// The metadata of a database in a namespace, from what was read of it.
    pub fn open_namespace(
        path: String,
        schema_ir: SchemaIr,
        catalog: Catalog,
        manifest: GraphManifest,
        computed_hash: &str,
    ) -> (r: Result<DatabaseMetadata, NanoError>)
        ensures
            match r {
                Ok(m) => computed_hash@ == manifest@.schema_ir_hash && m.path@ == path@
                    && m.schema_ir@ == schema_ir@ && m.catalog@ == catalog@ && m.manifest@
                    == with_paths(manifest@),
                Err(e) => computed_hash@ != manifest@.schema_ir_hash && e@ == ErrorModel::Manifest(
                    mismatch_message(manifest@.schema_ir_hash, computed_hash@),
                ),
            },
    {
        match check_schema_hash(&manifest, computed_hash) {
            Err(e) => Err(e),
            Ok(()) => {
                let datasets = fill_paths(manifest.datasets);
                let filled = GraphManifest {
                    format_version: manifest.format_version,
                    db_version: manifest.db_version,
                    last_tx_id: manifest.last_tx_id,
                    committed_at: manifest.committed_at,
                    schema_ir_hash: manifest.schema_ir_hash,
                    schema_identity_version: manifest.schema_identity_version,
                    next_node_id: manifest.next_node_id,
                    next_edge_id: manifest.next_edge_id,
                    next_type_id: manifest.next_type_id,
                    next_prop_id: manifest.next_prop_id,
                    datasets,
                };
                assert(filled@.datasets =~= with_paths(manifest@).datasets);
                Ok(DatabaseMetadata { path, schema_ir, catalog, manifest: filled })
            },
        }
    }

    pub fn path(&self) -> (r: &str)
        ensures
            r@ == self.path@,
    {
        self.path.as_str()
    }

    pub fn schema_ir(&self) -> (r: &SchemaIr)
        ensures
            r == self.schema_ir,
    {
        &self.schema_ir
    }

    pub fn catalog(&self) -> (r: &Catalog)
        ensures
            r == self.catalog,
    {
        &self.catalog
    }

    pub fn manifest(&self) -> (r: &GraphManifest)
        ensures
            r == self.manifest,
    {
        &self.manifest
    }

    /// The entry of a kind and type.
    pub fn dataset_entry(&self, kind: &str, label: &str) -> (r: Option<&DatasetEntry>)
        ensures
            match r {
                Some(e) => entry_for(
                    self.manifest@.datasets,
                    kind@,
                    label@,
                    self.manifest@.datasets.len() as int,
                ) == Some(e@),
                None => entry_for(
                    self.manifest@.datasets,
                    kind@,
                    label@,
                    self.manifest@.datasets.len() as int,
                ) is None,
            },
    {
        let ghost all = self.manifest@.datasets;
        let mut n: usize = self.manifest.datasets.len();
        while n > 0
            invariant
                n <= self.manifest.datasets@.len(),
                all == views(self.manifest.datasets@),
                entry_for(all, kind@, label@, all.len() as int) == entry_for(
                    all,
                    kind@,
                    label@,
                    n as int,
                ),
            decreases n,
        {
            let e = &self.manifest.datasets[n - 1];
            assert(all[n - 1] == e@);
            if same(&e.kind, kind) && same(&e.type_label, label) {
                return Some(e);
            }
            n = n - 1;
        }
        None
    }

    /// Where the table of a kind and type is.
    pub fn dataset_locator(
        &self,
        kind: &str,
        label: &str,
        detected: &Result<Option<StorageGeneration>, NanoError>,
    ) -> (r: Option<DatasetLocator>)
        ensures
            self.locates(kind@, label@, *detected, r),
    {
        let managed = match detected {
            Ok(Some(g)) => g.is_namespace_managed(),
            _ => false,
        };
        match self.dataset_entry(kind, label) {
            Some(e) => Some(locate(&self.path, e, managed)),
            None => None,
        }
    }

    /// Whether `r` is where the table of a kind and type is.
    pub open spec fn locates(
        &self,
        kind: Seq<char>,
        label: Seq<char>,
        detected: Result<Option<StorageGeneration>, NanoError>,
        r: Option<DatasetLocator>,
    ) -> bool {
        let n = self.manifest@.datasets.len() as int;
        match entry_for(self.manifest@.datasets, kind, label, n) {
            Some(e) => r matches Some(l) && l@ == locator_of(
                self.path@,
                e,
                detected matches Ok(Some(_)),
            ),
            None => r is None,
        }
    }

    /// Where the table of a node type is.
    pub fn node_dataset_locator(
        &self,
        label: &str,
        detected: &Result<Option<StorageGeneration>, NanoError>,
    ) -> (r: Option<DatasetLocator>)
        ensures
            self.locates("node"@, label@, *detected, r),
    {
        self.dataset_locator("node", label, detected)
    }

    /// Where the table of an edge type is.
    pub fn edge_dataset_locator(
        &self,
        label: &str,
        detected: &Result<Option<StorageGeneration>, NanoError>,
    ) -> (r: Option<DatasetLocator>)
        ensures
            self.locates("edge"@, label@, *detected, r),
    {
        self.dataset_locator("edge", label, detected)
    }
}

} // verus!
