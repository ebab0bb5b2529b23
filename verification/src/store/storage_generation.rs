//! Which storage layout a database has.

use crate::error::{ErrorModel, NanoError};
use crate::path::{joined, path_join};
use crate::text::{cat4, decimal, decimal_u64};
use vstd::prelude::*;

verus! {

/// The version of the layout's metadata that is understood.
pub const STORAGE_METADATA_VERSION: u32 = 1;

/// A storage layout.
#[derive(Debug, Clone, Copy, PartialEq, Eq, Structural)]
pub enum StorageGeneration {
    V4Namespace,
    NamespaceLineage,
}

impl StorageGeneration {
    /// Whether a namespace keeps the tables.
    pub fn is_namespace_managed(self) -> (r: bool)
        ensures
            r,
    {
        match self {
            StorageGeneration::V4Namespace | StorageGeneration::NamespaceLineage => true,
        }
    }
}

/// What a database says of its layout.
#[derive(Debug, Clone, Copy, PartialEq, Eq, Structural)]
pub struct StorageMetadata {
    pub version: u32,
    pub generation: StorageGeneration,
}

/// The file in which a database says which layout it has.
pub open spec fn metadata_path(db_path: Seq<char>) -> Seq<char> {
    joined(db_path, "storage.generation.json"@)
}

/// The file in which a database says which layout it has.
pub fn storage_metadata_path(db_path: &str) -> (r: String)
    ensures
        r@ == metadata_path(db_path@),
{
    path_join(db_path, "storage.generation.json")
}

/// What a database of a layout says.
pub fn storage_metadata(generation: StorageGeneration) -> (r: StorageMetadata)
    ensures
        r == (StorageMetadata { version: STORAGE_METADATA_VERSION, generation }),
{
    StorageMetadata { version: STORAGE_METADATA_VERSION, generation }
}

/// What was found of a database's metadata file.
#[derive(Debug)]
pub enum MetadataFile {
    Missing,
    /// The file was read as metadata.
    Found(StorageMetadata),
    /// The file could not be read as metadata, for this reason.
    Malformed(String),
}

/// The layout of a database: none where it does not say.
pub open spec fn generation_of(db_path: Seq<char>, file: MetadataFile) -> Result<
    Option<StorageGeneration>,
    Seq<char>,
> {
    match file {
        MetadataFile::Missing => Ok(None),
        MetadataFile::Malformed(e) => Err(
            "parse storage metadata "@ + metadata_path(db_path) + " error: "@ + e@,
        ),
        MetadataFile::Found(m) => if m.version != STORAGE_METADATA_VERSION {
            Err(
                "unsupported storage metadata version "@ + decimal(m.version as nat) + " in "@
                    + metadata_path(db_path),
            )
        } else {
            Ok(Some(m.generation))
        },
    }
}

/// Whether a result is the layout, or the refusal the one, that a spec gives.
pub open spec fn yields_generation(
    r: Result<Option<StorageGeneration>, NanoError>,
    m: Result<Option<StorageGeneration>, Seq<char>>,
) -> bool {
    match r {
        Ok(g) => m == Ok::<Option<StorageGeneration>, Seq<char>>(g),
        Err(e) => m matches Err(text) && e@ == ErrorModel::Storage(text),
    }
}

/// The layout of a database, from what was found of its metadata file.
pub fn read_storage_generation(db_path: &str, file: &MetadataFile) -> (r: Result<
    Option<StorageGeneration>,
    NanoError,
>)
    ensures
        yields_generation(r, generation_of(db_path@, *file)),
{
    let path = storage_metadata_path(db_path);
    match file {
        MetadataFile::Missing => Ok(None),
        MetadataFile::Malformed(e) => Err(
            NanoError::Storage(cat4("parse storage metadata ", &path, " error: ", e)),
        ),
        MetadataFile::Found(m) => {
            if m.version != STORAGE_METADATA_VERSION {
                return Err(
                    NanoError::Storage(
                        cat4(
                            "unsupported storage metadata version ",
                            &decimal_u64(m.version as u64),
                            " in ",
                            &path,
                        ),
                    ),
                );
            }
            Ok(Some(m.generation))
        },
    }
}

/// The layout of a database, from what was found of its metadata file.
pub fn detect_storage_generation(db_path: &str, file: &MetadataFile) -> (r: Result<
    Option<StorageGeneration>,
    NanoError,
>)
    ensures
        yields_generation(r, generation_of(db_path@, *file)),
{
    read_storage_generation(db_path, file)
}

/// A database that was told its layout has that layout.
pub proof fn law_written_layout_is_read(db_path: Seq<char>, generation: StorageGeneration)
    ensures
        generation_of(
            db_path,
            MetadataFile::Found(StorageMetadata { version: STORAGE_METADATA_VERSION, generation }),
        ) == Ok::<Option<StorageGeneration>, Seq<char>>(Some(generation)),
{
}

} // verus!
