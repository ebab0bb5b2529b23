//! What a reader of the database keeps: where the tables are, and what was read of them.

use crate::catalog::Catalog;
use crate::error::{ErrorModel, NanoError};
use crate::names::NameMap;
use crate::store::batch::{batch_ok, column_named, lemma_column_named, u64_column, Batch, BatchModel, ColumnData, ColumnModel};
use crate::store::manifest::{DatasetEntryModel, GraphManifest};
use crate::store::metadata::{locate, locator_of, DatasetLocator, LocatorModel};
use crate::store::read_laws::{law_edges_keep_their_direction, lists_row, rows_before};
use crate::store::search::TextSearchKind;
use crate::text::{cat3, same, views};
use ahash::AHashMap;
use vstd::prelude::*;

verus! {

// ---------------------------------------------------------------------------
// Maps of the ahash crate

#[verifier::external_type_specification]
#[verifier::external_body]
#[verifier::reject_recursive_types(K)]
#[verifier::reject_recursive_types(V)]
#[verifier::reject_recursive_types(S)]
pub struct ExAHashMap<K, V, S>(ahash::AHashMap<K, V, S>);

#[verifier::external_type_specification]
#[verifier::external_body]
pub struct ExRandomState(ahash::RandomState);

/// What a map from identities to rows holds.
pub uninterp spec fn rows_by_id(m: AHashMap<u64, usize, ahash::RandomState>) -> Map<u64, usize>;

pub open spec fn no_rows() -> Map<u64, usize> {
    Map::empty()
}

/// `AHashMap::new`: an empty map.
#[verifier::external_body]
fn new_row_map() -> (r: AHashMap<u64, usize, ahash::RandomState>)
    ensures
        rows_by_id(r) == no_rows(),
{
    AHashMap::new()
}

/// `AHashMap::insert`: sets the value of a key, and gives back the one it had.
#[verifier::external_body]
fn insert_row(m: &mut AHashMap<u64, usize, ahash::RandomState>, id: u64, row: usize) -> (r: Option<
    usize,
>)
    ensures
        rows_by_id(*final(m)) == rows_by_id(*old(m)).insert(id, row) && match r {
            Some(before) => rows_by_id(*old(m)).contains_key(id) && rows_by_id(*old(m))[id]
                == before,
            None => !rows_by_id(*old(m)).contains_key(id),
        },
{
    m.insert(id, row)
}

/// `AHashMap::get`: the value of a key.
#[verifier::external_body]
fn get_row(m: &AHashMap<u64, usize, ahash::RandomState>, id: u64) -> (r: Option<usize>)
    ensures
        match r {
            Some(row) => rows_by_id(*m).contains_key(id) && rows_by_id(*m)[id] == row,
            None => !rows_by_id(*m).contains_key(id),
        },
{
    m.get(&id).copied()
}

/// What a map from names and versions to slots holds.
pub uninterp spec fn slots_by_version(
    m: AHashMap<(String, u64), usize, ahash::RandomState>,
) -> Map<(Seq<char>, u64), usize>;

pub open spec fn no_slots() -> Map<(Seq<char>, u64), usize> {
    Map::empty()
}

/// `AHashMap::new`: an empty map.
#[verifier::external_body]
fn new_slot_map() -> (r: AHashMap<(String, u64), usize, ahash::RandomState>)
    ensures
        slots_by_version(r) == no_slots(),
{
    AHashMap::new()
}

/// `AHashMap::insert`: sets the value of a key, and gives back the one it had.
#[verifier::external_body]
fn insert_slot(
    m: &mut AHashMap<(String, u64), usize, ahash::RandomState>,
    name: String,
    version: u64,
    slot: usize,
) -> (r: Option<usize>)
    ensures
        slots_by_version(*final(m)) == slots_by_version(*old(m)).insert((name@, version), slot)
            && match r {
            Some(before) => slots_by_version(*old(m)).contains_key((name@, version))
                && slots_by_version(*old(m))[(name@, version)] == before,
            None => !slots_by_version(*old(m)).contains_key((name@, version)),
        },
{
    m.insert((name, version), slot)
}

/// `AHashMap::get`: the value of a key.
#[verifier::external_body]
fn get_slot(
    m: &AHashMap<(String, u64), usize, ahash::RandomState>,
    name: String,
    version: u64,
) -> (r: Option<usize>)
    ensures
        match r {
            Some(slot) => slots_by_version(*m).contains_key((name@, version)) && slots_by_version(
                *m,
            )[(name@, version)] == slot,
            None => !slots_by_version(*m).contains_key((name@, version)),
        },
{
    m.get(&(name, version)).copied()
}

/// What a map from searches to slots holds. A search is the type, the property, the version
/// of the table, the query, and the kind of search as a number with its edits.
pub uninterp spec fn slots_by_search(
    m: AHashMap<(String, String, u64, String, (u8, Option<u32>)), usize, ahash::RandomState>,
) -> Map<(Seq<char>, Seq<char>, u64, Seq<char>, (u8, Option<u32>)), usize>;

pub open spec fn no_searches() -> Map<
    (Seq<char>, Seq<char>, u64, Seq<char>, (u8, Option<u32>)),
    usize,
> {
    Map::empty()
}

/// `AHashMap::new`: an empty map.
#[verifier::external_body]
fn new_search_map() -> (r: AHashMap<
    (String, String, u64, String, (u8, Option<u32>)),
    usize,
    ahash::RandomState,
>)
    ensures
        slots_by_search(r) == no_searches(),
{
    AHashMap::new()
}

/// `AHashMap::insert`: sets the value of a key, and gives back the one it had.
#[verifier::external_body]
fn insert_search(
    m: &mut AHashMap<
        (String, String, u64, String, (u8, Option<u32>)),
        usize,
        ahash::RandomState,
    >,
    key: (String, String, u64, String, (u8, Option<u32>)),
    slot: usize,
) -> (r: Option<usize>)
    ensures
        slots_by_search(*final(m)) == slots_by_search(*old(m)).insert(search_key(key), slot)
            && match r {
            Some(before) => slots_by_search(*old(m)).contains_key(search_key(key))
                && slots_by_search(*old(m))[search_key(key)] == before,
            None => !slots_by_search(*old(m)).contains_key(search_key(key)),
        },
{
    m.insert(key, slot)
}

/// `AHashMap::get`: the value of a key.
#[verifier::external_body]
fn get_search(
    m: &AHashMap<(String, String, u64, String, (u8, Option<u32>)), usize, ahash::RandomState>,
    key: &(String, String, u64, String, (u8, Option<u32>)),
) -> (r: Option<usize>)
    ensures
        match r {
            Some(slot) => slots_by_search(*m).contains_key(search_key(*key)) && slots_by_search(
                *m,
            )[search_key(*key)] == slot,
            None => !slots_by_search(*m).contains_key(search_key(*key)),
        },
{
    m.get(key).copied()
}

/// The mathematical value of a search.
pub open spec fn search_key(key: (String, String, u64, String, (u8, Option<u32>))) -> (
    Seq<char>,
    Seq<char>,
    u64,
    Seq<char>,
    (u8, Option<u32>),
) {
    (key.0@, key.1@, key.2, key.3@, key.4)
}

// ---------------------------------------------------------------------------
// Lookup of nodes by identity

/// The rows of a node table by the identity of the node.
pub struct NodeLookup {
    id_to_row: AHashMap<u64, usize, ahash::RandomState>,
}

impl View for NodeLookup {
    type V = Map<u64, usize>;

    closed spec fn view(&self) -> Map<u64, usize> {
        rows_by_id(self.id_to_row)
    }
}

/// The rows of the first `n` identities; of two rows with the same identity the later
/// counts.
pub open spec fn rows_of_ids(ids: Seq<u64>, n: int) -> Map<u64, usize>
    decreases n,
{
    if n <= 0 {
        Map::empty()
    } else {
        rows_of_ids(ids, n - 1).insert(ids[n - 1], (n - 1) as usize)
    }
}

/// The identities of a node table, or the message that it has none.
pub open spec fn node_ids(b: BatchModel, label: Seq<char>) -> Result<Seq<u64>, Seq<char>> {
    match column_named(b, "id"@, 0) {
        None => Err("node dataset "@ + label + " missing id column"@),
        Some(ColumnModel::UInt64(ids, _)) => Ok(ids),
        Some(_) => Err("node dataset "@ + label + " id column is not UInt64"@),
    }
}

impl NodeLookup {
    /// Builds the lookup of a node table.
    pub fn build(label: &str, batch: &Batch) -> (r: Result<NodeLookup, NanoError>)
        requires
            batch_ok(batch@),
        ensures
            match r {
                Ok(l) => node_ids(batch@, label@) matches Ok(ids) && l@ == rows_of_ids(
                    ids,
                    batch@.num_rows as int,
                ),
                Err(e) => node_ids(batch@, label@) matches Err(m) && e@ == ErrorModel::Storage(m),
            },
    {
        proof {
            lemma_column_named(batch@, "id"@, 0);
        }
        let ids = match batch.column_by_name("id") {
            None => {
                return Err(
                    NanoError::Storage(cat3("node dataset ", label, " missing id column")),
                );
            },
            Some(ColumnData::UInt64 { values, .. }) => values,
            Some(_) => {
                return Err(
                    NanoError::Storage(cat3("node dataset ", label, " id column is not UInt64")),
                );
            },
        };
        let mut id_to_row = new_row_map();
        let n: usize = batch.num_rows;
        let mut i: usize = 0;
        while i < n
            invariant
                i <= n,
                ids@.len() == n,
                rows_by_id(id_to_row) == rows_of_ids(ids@, i as int),
            decreases n - i,
        {
            insert_row(&mut id_to_row, ids[i], i);
            i = i + 1;
        }
        Ok(NodeLookup { id_to_row })
    }

    /// The row of a node.
    pub fn row(&self, id: u64) -> (r: Option<usize>)
        ensures
            match r {
                Some(row) => self@.contains_key(id) && self@[id] == row,
                None => !self@.contains_key(id),
            },
    {
        get_row(&self.id_to_row, id)
    }
}

/// A row that is found for an identity has that identity, and every identity of the table is
/// found.
pub proof fn law_lookup_finds_rows(ids: Seq<u64>, n: int, id: u64)
    requires
        0 <= n <= ids.len() <= usize::MAX,
    ensures
        rows_of_ids(ids, n).contains_key(id) ==> rows_of_ids(ids, n)[id] < n
            && ids[rows_of_ids(ids, n)[id] as int] == id,
        rows_of_ids(ids, n).contains_key(id) <==> exists|i: int|
            0 <= i < n && #[trigger] ids[i] == id,
    decreases n,
{
    if n > 0 {
        law_lookup_finds_rows(ids, n - 1, id);
        if ids[n - 1] == id {
            assert(rows_of_ids(ids, n).contains_key(id));
        }
        if exists|i: int| 0 <= i < n - 1 && #[trigger] ids[i] == id {
            let i = choose|i: int| 0 <= i < n - 1 && #[trigger] ids[i] == id;
            assert(ids[i] == id);
        }
    }
}

// ---------------------------------------------------------------------------
// Caches

/// What was loaded for a version of a table, by slots that the caller numbers.
pub struct VersionedCache {
    slots: AHashMap<(String, u64), usize, ahash::RandomState>,
}

impl View for VersionedCache {
    type V = Map<(Seq<char>, u64), usize>;

    closed spec fn view(&self) -> Map<(Seq<char>, u64), usize> {
        slots_by_version(self.slots)
    }
}

impl VersionedCache {
    pub fn new() -> (r: VersionedCache)
        ensures
            r@ == Map::<(Seq<char>, u64), usize>::empty(),
    {
        VersionedCache { slots: new_slot_map() }
    }

    /// The slot of what was loaded, if it was.
    pub fn get(&self, name: &str, locator: &DatasetLocator) -> (r: Option<usize>)
        ensures
            match r {
                Some(slot) => self@.contains_key((name@, locator.dataset_version))
                    && self@[(name@, locator.dataset_version)] == slot,
                None => !self@.contains_key((name@, locator.dataset_version)),
            },
    {
        get_slot(&self.slots, name.to_owned(), locator.dataset_version)
    }

    /// Keeps the slot of what was loaded.
    pub fn insert(&mut self, name: &str, locator: &DatasetLocator, slot: usize)
        ensures
            final(self)@ == old(self)@.insert((name@, locator.dataset_version), slot),
    {
        insert_slot(&mut self.slots, name.to_owned(), locator.dataset_version, slot);
    }
}

/// A kind of search as a number with its edits.
pub open spec fn kind_code(kind: TextSearchKind) -> (u8, Option<u32>) {
    match kind {
        TextSearchKind::Search => (0, None),
        TextSearchKind::Fuzzy { max_edits } => (1, max_edits),
        TextSearchKind::MatchText => (2, None),
        TextSearchKind::Bm25 => (3, None),
    }
}

/// Different kinds of search have different numbers or edits.
pub proof fn law_kinds_of_search_are_kept_apart(a: TextSearchKind, b: TextSearchKind)
    requires
        kind_code(a) == kind_code(b),
    ensures
        a == b,
{
}

/// The scores that were loaded for a search, by slots that the caller numbers.
pub struct TextSearchCache {
    slots: AHashMap<(String, String, u64, String, (u8, Option<u32>)), usize, ahash::RandomState>,
}

impl View for TextSearchCache {
    type V = Map<(Seq<char>, Seq<char>, u64, Seq<char>, (u8, Option<u32>)), usize>;

    closed spec fn view(&self) -> Map<
        (Seq<char>, Seq<char>, u64, Seq<char>, (u8, Option<u32>)),
        usize,
    > {
        slots_by_search(self.slots)
    }
}

fn kind_number(kind: TextSearchKind) -> (r: (u8, Option<u32>))
    ensures
        r == kind_code(kind),
{
    match kind {
        TextSearchKind::Search => (0, None),
        TextSearchKind::Fuzzy { max_edits } => (1, max_edits),
        TextSearchKind::MatchText => (2, None),
        TextSearchKind::Bm25 => (3, None),
    }
}

impl TextSearchCache {
    pub fn new() -> (r: TextSearchCache)
        ensures
            r@ == no_searches(),
    {
        TextSearchCache { slots: new_search_map() }
    }

    /// The slot of the scores of a search, if they were loaded.
    pub fn get(
        &self,
        label: &str,
        locator: &DatasetLocator,
        property: &str,
        query: &str,
        kind: TextSearchKind,
    ) -> (r: Option<usize>)
        ensures
            ({
                let key = (
                    label@,
                    property@,
                    locator.dataset_version,
                    query@,
                    kind_code(kind),
                );
                match r {
                    Some(slot) => self@.contains_key(key) && self@[key] == slot,
                    None => !self@.contains_key(key),
                }
            }),
    {
        let key = (
            label.to_owned(),
            property.to_owned(),
            locator.dataset_version,
            query.to_owned(),
            kind_number(kind),
        );
        get_search(&self.slots, &key)
    }

    /// Keeps the slot of the scores of a search.
    pub fn insert(
        &mut self,
        label: &str,
        locator: &DatasetLocator,
        property: &str,
        query: &str,
        kind: TextSearchKind,
        slot: usize,
    )
        ensures
            final(self)@ == old(self)@.insert(
                (label@, property@, locator.dataset_version, query@, kind_code(kind)),
                slot,
            ),
    {
        let key = (
            label.to_owned(),
            property.to_owned(),
            locator.dataset_version,
            query.to_owned(),
            kind_number(kind),
        );
        insert_search(&mut self.slots, key, slot);
    }
}

/// Another version of a table is not found under the slot of this one.
pub proof fn law_versions_are_kept_apart(
    m: Map<(Seq<char>, u64), usize>,
    name: Seq<char>,
    version: u64,
    slot: usize,
    other: u64,
)
    requires
        other != version,
    ensures
        m.insert((name, version), slot).contains_key((name, other)) == m.contains_key(
            (name, other),
        ),
        m.insert((name, version), slot)[(name, version)] == slot,
{
}

/// Vectors of query texts by model, text and dimension. A number of a vector is held as its
/// bits.
#[derive(Debug)]
pub struct QueryEmbeddingCache {
    entries: Vec<(String, String, usize, Vec<u32>)>,
}

impl View for QueryEmbeddingCache {
    type V = Map<(Seq<char>, Seq<char>, usize), Seq<u32>>;

    closed spec fn view(&self) -> Map<(Seq<char>, Seq<char>, usize), Seq<u32>> {
        embeddings_of(self.entries@, self.entries@.len() as int)
    }
}

/// The vectors of the first `n` entries; of two with the same key the later counts.
spec fn embeddings_of(e: Seq<(String, String, usize, Vec<u32>)>, n: int) -> Map<
    (Seq<char>, Seq<char>, usize),
    Seq<u32>,
>
    decreases n,
{
    if n <= 0 {
        Map::empty()
    } else {
        embeddings_of(e, n - 1).insert((e[n - 1].0@, e[n - 1].1@, e[n - 1].2), e[n - 1].3@)
    }
}

proof fn lemma_embeddings_front(
    e: Seq<(String, String, usize, Vec<u32>)>,
    x: (String, String, usize, Vec<u32>),
    n: int,
)
    requires
        0 <= n <= e.len(),
    ensures
        embeddings_of(e.push(x), n) == embeddings_of(e, n),
    decreases n,
{
    if n > 0 {
        lemma_embeddings_front(e, x, n - 1);
    }
}

/// The key of an entry.
spec fn embedding_key(x: (String, String, usize, Vec<u32>)) -> (Seq<char>, Seq<char>, usize) {
    (x.0@, x.1@, x.2)
}

/// Putting an entry in place of the last one with its key gives that key the new vector.
proof fn lemma_embeddings_replaced(
    e: Seq<(String, String, usize, Vec<u32>)>,
    x: (String, String, usize, Vec<u32>),
    k: int,
    n: int,
)
    requires
        0 <= k < n <= e.len(),
        embedding_key(e[k]) == embedding_key(x),
        forall|j: int| k < j < n ==> embedding_key(#[trigger] e[j]) != embedding_key(x),
    ensures
        embeddings_of(e.update(k, x), n) == embeddings_of(e, n).insert(embedding_key(x), x.3@),
    decreases n,
{
    let t = e.update(k, x);
    if n == k + 1 {
        lemma_embeddings_same(e, t, k);
        assert(embeddings_of(t, n) =~= embeddings_of(e, n).insert(embedding_key(x), x.3@));
    } else {
        lemma_embeddings_replaced(e, x, k, n - 1);
        assert(t[n - 1] == e[n - 1]);
        assert(embedding_key(e[n - 1]) != embedding_key(x));
        assert(embeddings_of(t, n) =~= embeddings_of(e, n).insert(embedding_key(x), x.3@));
    }
}

proof fn lemma_embeddings_same(
    a: Seq<(String, String, usize, Vec<u32>)>,
    b: Seq<(String, String, usize, Vec<u32>)>,
    n: int,
)
    requires
        0 <= n <= a.len(),
        n <= b.len(),
        forall|j: int| 0 <= j < n ==> a[j] == b[j],
    ensures
        embeddings_of(a, n) == embeddings_of(b, n),
    decreases n,
{
    if n > 0 {
        lemma_embeddings_same(a, b, n - 1);
    }
}

impl QueryEmbeddingCache {
    pub fn new() -> (r: QueryEmbeddingCache)
        ensures
            r@ == Map::<(Seq<char>, Seq<char>, usize), Seq<u32>>::empty(),
    {
        QueryEmbeddingCache { entries: Vec::new() }
    }

    /// The vector of a text.
    pub fn get(&self, model: &str, text: &str, dim: usize) -> (r: Option<&Vec<u32>>)
        ensures
            match r {
                Some(v) => self@.contains_key((model@, text@, dim)) && self@[(
                    model@,
                    text@,
                    dim,
                )] == v@,
                None => !self@.contains_key((model@, text@, dim)),
            },
    {
        let mut n: usize = self.entries.len();
        let ghost key = (model@, text@, dim);
        while n > 0
            invariant
                n <= self.entries@.len(),
                key == (model@, text@, dim),
                self@.contains_key(key) == embeddings_of(self.entries@, n as int).contains_key(
                    key,
                ),
                self@.contains_key(key) ==> self@[key] == embeddings_of(
                    self.entries@,
                    n as int,
                )[key],
            decreases n,
        {
            let e = &self.entries[n - 1];
            if same(&e.0, model) && same(&e.1, text) && e.2 == dim {
                return Some(&e.3);
            }
            n = n - 1;
        }
        None
    }

    /// Keeps the vector of a text, in place of one that was there.
    pub fn insert(&mut self, model: &str, text: String, dim: usize, vector: Vec<u32>)
        ensures
            final(self)@ == old(self)@.insert((model@, text@, dim), vector@),
    {
        let ghost before = self.entries@;
        let ghost key = (model@, text@, dim);
        let x = (model.to_owned(), text, dim, vector);
        let mut n: usize = self.entries.len();
        #[verifier::loop_isolation(false)]
        while n > 0
            invariant
                self.entries@ == before,
                old(self)@ == embeddings_of(before, before.len() as int),
                n <= before.len(),
                key == (x.0@, x.1@, x.2),
                forall|j: int| n <= j < before.len() ==> embedding_key(#[trigger] before[j]) != key,
            decreases n,
        {
            let e = &self.entries[n - 1];
            if same(&e.0, &x.0) && same(&e.1, &x.1) && e.2 == dim {
                assert(embedding_key(before[n - 1]) == key);
                proof {
                    lemma_embeddings_replaced(before, x, n as int - 1, before.len() as int);
                }
                self.entries.set(n - 1, x);
                return;
            }
            n = n - 1;
        }
        proof {
            lemma_embeddings_front(before, x, before.len() as int);
        }
        self.entries.push(x);
    }
}

// ---------------------------------------------------------------------------
// The ends of edges

/// The edges of the first `n` rows: each as its ends and its identity.
pub open spec fn edge_rows(ids: Seq<u64>, src: Seq<u64>, dst: Seq<u64>, n: int) -> Seq<
    (u64, u64, u64),
> {
    Seq::new(n as nat, |i: int| (src[i], dst[i], ids[i]))
}

/// The edges of a table, or the message of the first column of the wrong shape.
pub open spec fn edges_of(b: BatchModel) -> Result<Seq<(u64, u64, u64)>, Seq<char>> {
    match u64_column(b, "edge"@, "id"@) {
        Err(m) => Err(m),
        Ok(ids) => match u64_column(b, "edge"@, "src"@) {
            Err(m) => Err(m),
            Ok(src) => match u64_column(b, "edge"@, "dst"@) {
                Err(m) => Err(m),
                Ok(dst) => Ok(edge_rows(ids, src, dst, b.num_rows as int)),
            },
        },
    }
}

/// The edges of the first `n` tables, one table behind the other.
pub open spec fn all_edges(b: Seq<BatchModel>, n: int) -> Result<Seq<(u64, u64, u64)>, Seq<char>>
    decreases n,
{
    if n <= 0 {
        Ok(Seq::empty())
    } else {
        match all_edges(b, n - 1) {
            Err(m) => Err(m),
            Ok(done) => match edges_of(b[n - 1]) {
                Err(m) => Err(m),
                Ok(more) => Ok(done + more),
            },
        }
    }
}

/// Edges seen from their other end.
pub open spec fn reversed_edges(e: Seq<(u64, u64, u64)>) -> Seq<(u64, u64, u64)> {
    Seq::new(e.len(), |i: int| (e[i].1, e[i].0, e[i].2))
}

proof fn lemma_all_edges_refused(b: Seq<BatchModel>, n: int, k: int)
    requires
        0 <= k <= n,
        all_edges(b, k) is Err,
    ensures
        all_edges(b, n) == all_edges(b, k),
    decreases n,
{
    if k < n {
        lemma_all_edges_refused(b, n - 1, k);
    }
}

/// The edges of a type, seen from their source and from their destination.
pub struct EdgeLists {
    pub out_edges: Vec<(u64, u64, u64)>,
    pub in_edges: Vec<(u64, u64, u64)>,
}

/// Reads the edges of a type from its tables.
pub fn collect_edges(batches: &Vec<Batch>) -> (r: Result<EdgeLists, NanoError>)
    requires
        forall|i: int| 0 <= i < batches@.len() ==> batch_ok((#[trigger] batches@[i])@),
    ensures
        match r {
            Ok(l) => all_edges(views(batches@), batches@.len() as int) == Ok::<
                Seq<(u64, u64, u64)>,
                Seq<char>,
            >(l.out_edges@) && l.in_edges@ == reversed_edges(l.out_edges@),
            Err(e) => all_edges(views(batches@), batches@.len() as int) matches Err(m) && e@
                == ErrorModel::Storage(m),
        },
        r matches Ok(l) ==> {
            &&& l.out_edges@.len() == rows_before(views(batches@), batches@.len() as int)
            &&& l.in_edges@.len() == l.out_edges@.len()
            &&& forall|t: int, i: int|
                #![trigger views(batches@)[t], l.out_edges@[rows_before(views(batches@), t) + i]]
                0 <= t < batches@.len() && 0 <= i < views(batches@)[t].num_rows ==> lists_row(
                    views(batches@)[t],
                    i,
                    l.out_edges@[rows_before(views(batches@), t) + i],
                    l.in_edges@[rows_before(views(batches@), t) + i],
                )
        },
{
    proof {
        law_edges_keep_their_direction(views(batches@), batches@.len() as int);
    }
    let ghost all = views(batches@);
    let mut out_edges: Vec<(u64, u64, u64)> = Vec::new();
    let mut in_edges: Vec<(u64, u64, u64)> = Vec::new();
    assert(in_edges@ =~= reversed_edges(out_edges@));
    let mut b: usize = 0;
    while b < batches.len()
        invariant
            b <= batches@.len(),
            all == views(batches@),
            forall|i: int| 0 <= i < batches@.len() ==> batch_ok((#[trigger] batches@[i])@),
            all_edges(all, b as int) == Ok::<Seq<(u64, u64, u64)>, Seq<char>>(out_edges@),
            in_edges@ == reversed_edges(out_edges@),
        decreases batches@.len() - b,
    {
        let batch = &batches[b];
        assert(all[b as int] == batch@);
        proof {
            if all_edges(all, b as int + 1) is Err {
                lemma_all_edges_refused(all, all.len() as int, b as int + 1);
            }
        }
        let ids = batch.uint64("edge", "id")?;
        let src = batch.uint64("edge", "src")?;
        let dst = batch.uint64("edge", "dst")?;
        let ghost before = out_edges@;
        let ghost rows = edge_rows(ids@, src@, dst@, batch.num_rows as int);
        let mut i: usize = 0;
        assert(before + rows.take(0) =~= before);
        while i < batch.num_rows
            invariant
                i <= batch.num_rows,
                ids@.len() == batch.num_rows,
                src@.len() == batch.num_rows,
                dst@.len() == batch.num_rows,
                rows == edge_rows(ids@, src@, dst@, batch.num_rows as int),
                out_edges@ == before + rows.take(i as int),
                in_edges@ == reversed_edges(out_edges@),
            decreases batch.num_rows - i,
        {
            proof {
                assert(rows.take(i as int + 1) =~= rows.take(i as int).push(rows[i as int]));
                assert(before + rows.take(i as int + 1) =~= out_edges@.push(rows[i as int]));
                assert(reversed_edges(out_edges@.push(rows[i as int])) =~= in_edges@.push(
                    (dst@[i as int], src@[i as int], ids@[i as int]),
                ));
            }
            out_edges.push((src[i], dst[i], ids[i]));
            in_edges.push((dst[i], src[i], ids[i]));
            i = i + 1;
        }
        assert(rows.take(rows.len() as int) =~= rows);
        b = b + 1;
    }
    Ok(EdgeLists { out_edges, in_edges })
}

// ---------------------------------------------------------------------------
// The runtime

/// What a reader of the database knows of it.
#[derive(Debug)]
pub struct DatabaseRuntime {
    pub catalog: Catalog,
    pub node_locators: NameMap<DatasetLocator>,
    pub edge_locators: NameMap<DatasetLocator>,
    pub next_node_id: u64,
    pub next_edge_id: u64,
}

/// The tables of a kind among the first `n` entries, by type; of two of the same type the
/// later counts.
pub open spec fn locators_of(
    path: Seq<char>,
    datasets: Seq<DatasetEntryModel>,
    kind: Seq<char>,
    n: int,
) -> Map<Seq<char>, LocatorModel>
    decreases n,
{
    if n <= 0 {
        Map::empty()
    } else if datasets[n - 1].kind == kind {
        locators_of(path, datasets, kind, n - 1).insert(
            datasets[n - 1].type_label,
            locator_of(path, datasets[n - 1], true),
        )
    } else {
        locators_of(path, datasets, kind, n - 1)
    }
}

impl DatabaseRuntime {
    /// The runtime of a database without tables.
    pub fn empty(catalog: Catalog) -> (r: DatabaseRuntime)
        ensures
            r.catalog@ == catalog@,
            r.node_locators@ == Map::<Seq<char>, LocatorModel>::empty(),
            r.edge_locators@ == Map::<Seq<char>, LocatorModel>::empty(),
            r.next_node_id == 0,
            r.next_edge_id == 0,
    {
        DatabaseRuntime {
            catalog,
            node_locators: NameMap::new(),
            edge_locators: NameMap::new(),
            next_node_id: 0,
            next_edge_id: 0,
        }
    }

    /// The runtime of a database with a catalog and a manifest.
    pub fn from_metadata(path: &str, catalog: Catalog, manifest: &GraphManifest) -> (r:
        DatabaseRuntime)
        ensures
            r.catalog@ == catalog@,
            r.node_locators@ == locators_of(
                path@,
                manifest@.datasets,
                "node"@,
                manifest@.datasets.len() as int,
            ),
            r.edge_locators@ == locators_of(
                path@,
                manifest@.datasets,
                "edge"@,
                manifest@.datasets.len() as int,
            ),
            r.next_node_id == manifest@.next_node_id,
            r.next_edge_id == manifest@.next_edge_id,
    {
        proof {
            reveal_strlit("node");
            reveal_strlit("edge");
            assert("node"@[0] == 'n' && "edge"@[0] == 'e');
        }
        let mut runtime = DatabaseRuntime::empty(catalog);
        let mut i: usize = 0;
        while i < manifest.datasets.len()
            invariant
                i <= manifest.datasets@.len(),
                "node"@ != "edge"@,
                runtime.catalog@ == catalog@,
                runtime.node_locators@ == locators_of(
                    path@,
                    manifest@.datasets,
                    "node"@,
                    i as int,
                ),
                runtime.edge_locators@ == locators_of(
                    path@,
                    manifest@.datasets,
                    "edge"@,
                    i as int,
                ),
            decreases manifest.datasets@.len() - i,
        {
            let e = &manifest.datasets[i];
            assert(manifest@.datasets[i as int] == e@);
            let locator = locate(path, e, true);
            if same(&e.kind, "node") {
                runtime.node_locators.insert(e.type_label.clone(), locator);
            } else if same(&e.kind, "edge") {
                runtime.edge_locators.insert(e.type_label.clone(), locator);
            }
            i = i + 1;
        }
        runtime.next_node_id = manifest.next_node_id;
        runtime.next_edge_id = manifest.next_edge_id;
        runtime
    }

    pub fn catalog(&self) -> (r: &Catalog)
        ensures
            r == self.catalog,
    {
        &self.catalog
    }

    pub fn next_node_id(&self) -> (r: u64)
        ensures
            r == self.next_node_id,
    {
        self.next_node_id
    }

    /// Where the table of a node type is.
    pub fn node_dataset_locator(&self, label: &str) -> (r: Option<&DatasetLocator>)
        ensures
            match r {
                Some(l) => self.node_locators@.contains_key(label@) && self.node_locators@[label@]
                    == l@,
                None => !self.node_locators@.contains_key(label@),
            },
    {
        self.node_locators.get(label)
    }

    /// Where the table of an edge type is.
    pub fn edge_dataset_locator(&self, label: &str) -> (r: Option<&DatasetLocator>)
        ensures
            match r {
                Some(l) => self.edge_locators@.contains_key(label@) && self.edge_locators@[label@]
                    == l@,
                None => !self.edge_locators@.contains_key(label@),
            },
    {
        self.edge_locators.get(label)
    }

    /// The version of the table of a node type.
    pub fn node_dataset_version(&self, label: &str) -> (r: Option<u64>)
        ensures
            r == (if self.node_locators@.contains_key(label@) {
                Some(self.node_locators@[label@].dataset_version)
            } else {
                None
            }),
    {
        match self.node_dataset_locator(label) {
            Some(l) => Some(l.dataset_version),
            None => None,
        }
    }

    /// The version of the table of an edge type.
    pub fn edge_dataset_version(&self, label: &str) -> (r: Option<u64>)
        ensures
            r == (if self.edge_locators@.contains_key(label@) {
                Some(self.edge_locators@[label@].dataset_version)
            } else {
                None
            }),
    {
        match self.edge_dataset_locator(label) {
            Some(l) => Some(l.dataset_version),
            None => None,
        }
    }

    /// The path of the table of a node type.
    pub fn node_dataset_path(&self, label: &str) -> (r: Option<&String>)
        ensures
            match r {
                Some(p) => self.node_locators@.contains_key(label@)
                    && self.node_locators@[label@].dataset_path == p@,
                None => !self.node_locators@.contains_key(label@),
            },
    {
        match self.node_dataset_locator(label) {
            Some(l) => Some(&l.dataset_path),
            None => None,
        }
    }

    /// The path of the table of an edge type.
    pub fn edge_dataset_path(&self, label: &str) -> (r: Option<&String>)
        ensures
            match r {
                Some(p) => self.edge_locators@.contains_key(label@)
                    && self.edge_locators@[label@].dataset_path == p@,
                None => !self.edge_locators@.contains_key(label@),
            },
    {
        match self.edge_dataset_locator(label) {
            Some(l) => Some(&l.dataset_path),
            None => None,
        }
    }

    /// The number of node types with a table.
    pub fn node_dataset_count(&self) -> (r: usize)
        ensures
            r == self.node_locators@.dom().len(),
    {
        self.node_locators.len()
    }

    /// The number of edge types with a table.
    pub fn edge_dataset_count(&self) -> (r: usize)
        ensures
            r == self.edge_locators@.dom().len(),
    {
        self.edge_locators.len()
    }

    /// The table of a node type that text is searched in.
    pub fn native_text_scores(&self, label: &str) -> (r: Result<&DatasetLocator, NanoError>)
        ensures
            match r {
                Ok(l) => self.node_locators@.contains_key(label@) && self.node_locators@[label@]
                    == l@,
                Err(e) => !self.node_locators@.contains_key(label@) && e@ == ErrorModel::Storage(
                    "node dataset "@ + label@ + " is not available"@,
                ),
            },
    {
        match self.node_dataset_locator(label) {
            Some(l) => Ok(l),
            None => Err(NanoError::Storage(cat3("node dataset ", label, " is not available"))),
        }
    }
}

} // verus!
