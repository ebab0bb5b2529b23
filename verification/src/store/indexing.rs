//! The indexes of a node type's table.

use crate::store::schema_ir::{NodeTypeDef, NodeTypeDefModel, PropDefModel};
use crate::text::{cat5, hex_fixed, hex_padded, lemma_views_push, views};
use crate::types::{scalar_named, ScalarType};
use vstd::prelude::*;

verus! {

/// The name of an index: of the type by its identity, and of the property.
pub open spec fn index_name(type_id: u32, property: Seq<char>, suffix: Seq<char>) -> Seq<char> {
    "nano_"@ + hex_fixed(type_id as nat, 8) + "_"@ + property + suffix
}

/// The name of the scalar index of a property.
pub fn scalar_index_name(type_id: u32, property: &str) -> (r: String)
    ensures
        r@ == index_name(type_id, property@, "_btree_idx"@),
{
    cat5("nano_", &hex_padded(type_id as u64, 8), "_", property, "_btree_idx")
}

/// The name of the vector index of a property.
pub fn vector_index_name(type_id: u32, property: &str) -> (r: String)
    ensures
        r@ == index_name(type_id, property@, "_ivfpq_idx"@),
{
    cat5("nano_", &hex_padded(type_id as u64, 8), "_", property, "_ivfpq_idx")
}

/// The name of the text index of a property.
pub fn text_index_name(type_id: u32, property: &str) -> (r: String)
    ensures
        r@ == index_name(type_id, property@, "_fts_idx"@),
{
    cat5("nano_", &hex_padded(type_id as u64, 8), "_", property, "_fts_idx")
}

/// The number of partitions of a vector index: one for a small table, else the square root
/// of the number of rows, to the nearest integer, up to 256.
pub fn choose_ivf_partitions(row_count: usize) -> (r: usize)
    ensures
        1 <= r <= 256,
        row_count <= 1024 ==> r == 1,
        row_count > 1024 ==> r * r - r < row_count && (r < 256 ==> row_count <= r * r + r),
{
    if row_count <= 1024 {
        return 1;
    }
    let mut r: usize = 1;
    while r < 256 && r * r + r < row_count
        invariant
            1 <= r <= 256,
            row_count > 1024,
            r * r - r < row_count,
            r < 256 ==> r * r + r <= 65792,
        decreases 256 - r,
    {
        assert((r + 1) * (r + 1) - (r + 1) == r * r + r) by (nonlinear_arith);
        assert(r < 255 ==> (r + 1) * (r + 1) + (r + 1) <= 65792) by (nonlinear_arith)
            requires
                1 <= r < 256,
        ;
        r = r + 1;
    }
    r
}

/// Whether a vector of a dimension falls into `parts` equal parts.
pub open spec fn parts_fit(parts: int, dim: int) -> bool {
    parts <= dim && dim % parts == 0
}

/// The number of parts into which product quantization cuts a vector: the greatest power of
/// two up to 32 that cuts it evenly.
pub fn choose_pq_sub_vectors(dim: usize) -> (r: usize)
    ensures
        r == 32 || r == 16 || r == 8 || r == 4 || r == 2 || r == 1,
        dim > 0 ==> parts_fit(r as int, dim as int),
        dim == 0 ==> r == 1,
        r < 32 ==> !parts_fit(32, dim as int),
        r < 16 ==> !parts_fit(16, dim as int),
        r < 8 ==> !parts_fit(8, dim as int),
        r < 4 ==> !parts_fit(4, dim as int),
        r < 2 ==> !parts_fit(2, dim as int),
{
    if 32 <= dim && dim % 32 == 0 {
        32
    } else if 16 <= dim && dim % 16 == 0 {
        16
    } else if 8 <= dim && dim % 8 == 0 {
        8
    } else if 4 <= dim && dim % 4 == 0 {
        4
    } else if 2 <= dim && dim % 2 == 0 {
        2
    } else {
        1
    }
}

/// The kind of an index.
#[derive(Debug, Clone, Copy, PartialEq, Eq, Structural)]
pub enum IndexKind {
    Scalar,
    /// Full text, with positions, without stemming, stop words or folding.
    Text,
    /// Partitions of quantized vectors, by cosine.
    IvfPq { partitions: usize, bits: u8, sub_vectors: usize, max_iters: usize },
    /// Partitions of whole vectors, by cosine.
    IvfFlat { partitions: usize },
}

/// An index to build, in place of one of the same name.
#[derive(Debug)]
pub struct IndexBuild {
    pub property: String,
    pub index_name: String,
    pub kind: IndexKind,
}

pub struct IndexBuildModel {
    pub property: Seq<char>,
    pub index_name: Seq<char>,
    pub kind: IndexKind,
}

impl View for IndexBuild {
    type V = IndexBuildModel;

    open spec fn view(&self) -> IndexBuildModel {
        IndexBuildModel {
            property: self.property@,
            index_name: self.index_name@,
            kind: self.kind,
        }
    }
}

/// A single value with an index, other than a vector.
pub open spec fn wants_scalar_index(p: PropDefModel) -> bool {
    p.index && !p.list && !(scalar_named(p.scalar_type) matches Some(s) && s is Vector)
}

/// A single text with an index.
pub open spec fn wants_text_index(p: PropDefModel) -> bool {
    p.index && !p.list && scalar_named(p.scalar_type) == Some(ScalarType::String)
}

/// The dimension of a single vector with an index.
pub open spec fn vector_index_dim(p: PropDefModel) -> Option<u32> {
    if p.index && !p.list {
        match scalar_named(p.scalar_type) {
            Some(ScalarType::Vector(dim)) => if dim > 0 {
                Some(dim)
            } else {
                None
            },
            _ => None,
        }
    } else {
        None
    }
}

/// The scalar indexes of the first `n` properties.
pub open spec fn scalar_builds(node: NodeTypeDefModel, n: int) -> Seq<IndexBuildModel>
    decreases n,
{
    if n <= 0 {
        Seq::empty()
    } else {
        let p = node.properties[n - 1];
        if wants_scalar_index(p) {
            scalar_builds(node, n - 1).push(
                IndexBuildModel {
                    property: p.name,
                    index_name: index_name(node.type_id, p.name, "_btree_idx"@),
                    kind: IndexKind::Scalar,
                },
            )
        } else {
            scalar_builds(node, n - 1)
        }
    }
}

/// The text indexes of the first `n` properties.
pub open spec fn text_builds(node: NodeTypeDefModel, n: int) -> Seq<IndexBuildModel>
    decreases n,
{
    if n <= 0 {
        Seq::empty()
    } else {
        let p = node.properties[n - 1];
        if wants_text_index(p) {
            text_builds(node, n - 1).push(
                IndexBuildModel {
                    property: p.name,
                    index_name: index_name(node.type_id, p.name, "_fts_idx"@),
                    kind: IndexKind::Text,
                },
            )
        } else {
            text_builds(node, n - 1)
        }
    }
}

/// The indexed vectors among the first `n` properties, with their dimensions.
pub open spec fn vector_props(node: NodeTypeDefModel, n: int) -> Seq<(Seq<char>, usize)>
    decreases n,
{
    if n <= 0 {
        Seq::empty()
    } else {
        let p = node.properties[n - 1];
        match vector_index_dim(p) {
            Some(dim) => vector_props(node, n - 1).push((p.name, dim as usize)),
            None => vector_props(node, n - 1),
        }
    }
}

/// The scalar indexes of a node type.
pub fn plan_scalar_indexes(node: &NodeTypeDef) -> (r: Vec<IndexBuild>)
    ensures
        views(r@) == scalar_builds(node@, node@.properties.len() as int),
{
    let mut out: Vec<IndexBuild> = Vec::new();
    assert(views(out@) =~= Seq::<IndexBuildModel>::empty());
    let mut i: usize = 0;
    while i < node.properties.len()
        invariant
            i <= node.properties@.len(),
            views(out@) == scalar_builds(node@, i as int),
        decreases node.properties@.len() - i,
    {
        let p = &node.properties[i];
        assert(node@.properties[i as int] == p@);
        let vector = match ScalarType::from_str_name(&p.scalar_type) {
            Some(ScalarType::Vector(_)) => true,
            _ => false,
        };
        if p.index && !p.list && !vector {
            let x = IndexBuild {
                property: p.name.clone(),
                index_name: scalar_index_name(node.type_id, &p.name),
                kind: IndexKind::Scalar,
            };
            proof {
                lemma_views_push(out@, x);
            }
            out.push(x);
        }
        i = i + 1;
    }
    out
}

/// The text indexes of a node type.
pub fn plan_text_indexes(node: &NodeTypeDef) -> (r: Vec<IndexBuild>)
    ensures
        views(r@) == text_builds(node@, node@.properties.len() as int),
{
    let mut out: Vec<IndexBuild> = Vec::new();
    assert(views(out@) =~= Seq::<IndexBuildModel>::empty());
    let mut i: usize = 0;
    while i < node.properties.len()
        invariant
            i <= node.properties@.len(),
            views(out@) == text_builds(node@, i as int),
        decreases node.properties@.len() - i,
    {
        let p = &node.properties[i];
        assert(node@.properties[i as int] == p@);
        let text = match ScalarType::from_str_name(&p.scalar_type) {
            Some(ScalarType::String) => true,
            _ => false,
        };
        if p.index && !p.list && text {
            let x = IndexBuild {
                property: p.name.clone(),
                index_name: text_index_name(node.type_id, &p.name),
                kind: IndexKind::Text,
            };
            proof {
                lemma_views_push(out@, x);
            }
            out.push(x);
        }
        i = i + 1;
    }
    out
}

/// Named dimensions as mathematical values.
pub open spec fn dims_view(v: Seq<(String, usize)>) -> Seq<(Seq<char>, usize)> {
    Seq::new(v.len(), |i: int| (v[i].0@, v[i].1))
}

/// The indexed vectors of a node type, with their dimensions.
pub fn indexed_vector_properties(node: &NodeTypeDef) -> (r: Vec<(String, usize)>)
    ensures
        dims_view(r@) == vector_props(node@, node@.properties.len() as int),
{
    let mut out: Vec<(String, usize)> = Vec::new();
    assert(dims_view(out@) =~= Seq::<(Seq<char>, usize)>::empty());
    let mut i: usize = 0;
    while i < node.properties.len()
        invariant
            i <= node.properties@.len(),
            dims_view(out@) == vector_props(node@, i as int),
        decreases node.properties@.len() - i,
    {
        let p = &node.properties[i];
        assert(node@.properties[i as int] == p@);
        if p.index && !p.list {
            if let Some(ScalarType::Vector(dim)) = ScalarType::from_str_name(&p.scalar_type) {
                if dim > 0 {
                    let x = (p.name.clone(), dim as usize);
                    proof {
                        assert(dims_view(out@.push(x)) =~= dims_view(out@).push(
                            (p.name@, dim as usize),
                        ));
                    }
                    out.push(x);
                }
            }
        }
        i = i + 1;
    }
    out
}

/// Whether an index is the one of a vector: quantized where there are rows enough to train
/// it on.
pub open spec fn is_vector_build(
    b: IndexBuildModel,
    type_id: u32,
    prop: (Seq<char>, usize),
    row_count: usize,
) -> bool {
    &&& b.property == prop.0
    &&& b.index_name == index_name(type_id, prop.0, "_ivfpq_idx"@)
    &&& match b.kind {
        IndexKind::IvfPq { partitions, bits, sub_vectors, max_iters } => {
            &&& row_count >= 256
            &&& partitions_fit(partitions, row_count)
            &&& bits == 8
            &&& sub_vectors_fit(sub_vectors, prop.1)
            &&& max_iters == 50
        },
        IndexKind::IvfFlat { partitions } => row_count < 256 && partitions_fit(
            partitions,
            row_count,
        ),
        _ => false,
    }
}

/// What `choose_ivf_partitions` chooses.
pub open spec fn partitions_fit(r: usize, row_count: usize) -> bool {
    &&& 1 <= r <= 256
    &&& row_count <= 1024 ==> r == 1
    &&& row_count > 1024 ==> r * r - r < row_count && (r < 256 ==> row_count <= r * r + r)
}

/// What `choose_pq_sub_vectors` chooses for a dimension that is not 0.
pub open spec fn sub_vectors_fit(r: usize, dim: usize) -> bool {
    &&& r == 32 || r == 16 || r == 8 || r == 4 || r == 2 || r == 1
    &&& dim > 0 ==> parts_fit(r as int, dim as int)
    &&& r < 32 ==> !parts_fit(32, dim as int)
    &&& r < 16 ==> !parts_fit(16, dim as int)
    &&& r < 8 ==> !parts_fit(8, dim as int)
    &&& r < 4 ==> !parts_fit(4, dim as int)
    &&& r < 2 ==> !parts_fit(2, dim as int)
}

/// The vector indexes of a node type whose table has some rows; none for an empty table.
pub fn plan_vector_indexes(node: &NodeTypeDef, row_count: usize) -> (r: Vec<IndexBuild>)
    ensures
        row_count == 0 ==> r@.len() == 0,
        row_count > 0 ==> r@.len() == vector_props(node@, node@.properties.len() as int).len(),
        forall|i: int|
            0 <= i < r@.len() ==> is_vector_build(
                (#[trigger] r@[i])@,
                node@.type_id,
                vector_props(node@, node@.properties.len() as int)[i],
                row_count,
            ),
{
    let mut out: Vec<IndexBuild> = Vec::new();
    let props = indexed_vector_properties(node);
    if row_count == 0 {
        return out;
    }
    let ghost expected = vector_props(node@, node@.properties.len() as int);
    assert(dims_view(props@).len() == props@.len());
    let partitions = choose_ivf_partitions(row_count);
    let mut i: usize = 0;
    while i < props.len()
        invariant
            i <= props@.len(),
            row_count > 0,
            expected == dims_view(props@),
            partitions_fit(partitions, row_count),
            out@.len() == i,
            forall|k: int|
                0 <= k < i ==> is_vector_build(
                    (#[trigger] out@[k])@,
                    node@.type_id,
                    expected[k],
                    row_count,
                ),
        decreases props@.len() - i,
    {
        let kind = if row_count >= 256 {
            IndexKind::IvfPq {
                partitions,
                bits: 8,
                sub_vectors: choose_pq_sub_vectors(props[i].1),
                max_iters: 50,
            }
        } else {
            IndexKind::IvfFlat { partitions }
        };
        assert(expected[i as int] == (props@[i as int].0@, props@[i as int].1));
        out.push(
            IndexBuild {
                property: props[i].0.clone(),
                index_name: vector_index_name(node.type_id, &props[i].0),
                kind,
            },
        );
        i = i + 1;
    }
    out
}

/// Two numbers of at most eight hexadecimal digits with the same digits are the same.
proof fn lemma_hex_injective(a: nat, b: nat, width: nat)
    requires
        hex_fixed(a, width) == hex_fixed(b, width),
        a < vstd::arithmetic::power::pow(16, width) as nat,
        b < vstd::arithmetic::power::pow(16, width) as nat,
    ensures
        a == b,
    decreases width,
{
    use_pow(width);
    if width > 0 {
        let x = hex_fixed(a / 16, (width - 1) as nat);
        let y = hex_fixed(b / 16, (width - 1) as nat);
        assert(hex_fixed(a, width).drop_last() =~= x);
        assert(hex_fixed(b, width).drop_last() =~= y);
        assert(hex_fixed(a, width).last() == crate::text::hex_digit(a as int % 16));
        assert(hex_fixed(b, width).last() == crate::text::hex_digit(b as int % 16));
        lemma_hex_injective(a / 16, b / 16, (width - 1) as nat);
    }
}

proof fn use_pow(width: nat)
    ensures
        width == 0 ==> vstd::arithmetic::power::pow(16, width) == 1,
        width > 0 ==> vstd::arithmetic::power::pow(16, width) == 16
            * vstd::arithmetic::power::pow(16, (width - 1) as nat),
        vstd::arithmetic::power::pow(16, width) > 0,
{
    reveal(vstd::arithmetic::power::pow);
    vstd::arithmetic::power::lemma_pow_positive(16, width);
}

proof fn lemma_hex_len(n: nat, width: nat)
    ensures
        hex_fixed(n, width).len() == width,
    decreases width,
{
    if width > 0 {
        lemma_hex_len(n / 16, (width - 1) as nat);
    }
}

/// The names of indexes of one kind tell types and properties apart.
pub proof fn law_index_names_are_distinct(
    type_a: u32,
    prop_a: Seq<char>,
    type_b: u32,
    prop_b: Seq<char>,
    suffix: Seq<char>,
)
    requires
        index_name(type_a, prop_a, suffix) == index_name(type_b, prop_b, suffix),
    ensures
        type_a == type_b,
        prop_a == prop_b,
{
    let (x, y) = (hex_fixed(type_a as nat, 8), hex_fixed(type_b as nat, 8));
    let (u, v) = (index_name(type_a, prop_a, suffix), index_name(type_b, prop_b, suffix));
    reveal_strlit("nano_");
    reveal_strlit("_");
    lemma_hex_len(type_a as nat, 8);
    lemma_hex_len(type_b as nat, 8);
    assert(x =~= u.subrange(5, 13));
    assert(y =~= v.subrange(5, 13));
    assert(vstd::arithmetic::power::pow(16, 8) == 0x1_0000_0000) by {
        use_pow(8);
        use_pow(7);
        use_pow(6);
        use_pow(5);
        use_pow(4);
        use_pow(3);
        use_pow(2);
        use_pow(1);
        use_pow(0);
    }
    lemma_hex_injective(type_a as nat, type_b as nat, 8);
    assert(prop_a =~= u.subrange(14, u.len() - suffix.len()));
    assert(prop_b =~= v.subrange(14, v.len() - suffix.len()));
}

/// No index has the name of an index of another kind.
pub proof fn law_index_kinds_do_not_clash(
    type_a: u32,
    prop_a: Seq<char>,
    type_b: u32,
    prop_b: Seq<char>,
)
    ensures
        index_name(type_a, prop_a, "_btree_idx"@) != index_name(type_b, prop_b, "_fts_idx"@),
        index_name(type_a, prop_a, "_btree_idx"@) != index_name(type_b, prop_b, "_ivfpq_idx"@),
        index_name(type_a, prop_a, "_fts_idx"@) != index_name(type_b, prop_b, "_ivfpq_idx"@),
{
    reveal_strlit("_btree_idx");
    reveal_strlit("_fts_idx");
    reveal_strlit("_ivfpq_idx");
    let a = index_name(type_a, prop_a, "_btree_idx"@);
    let a2 = index_name(type_a, prop_a, "_fts_idx"@);
    let b = index_name(type_b, prop_b, "_fts_idx"@);
    let c = index_name(type_b, prop_b, "_ivfpq_idx"@);
    assert(a[a.len() - 5] == 'e');
    assert(a2[a2.len() - 5] == 's');
    assert(b[b.len() - 5] == 's');
    assert(c[c.len() - 5] == 'q');
}

} // verus!
