//! Which indexes a node type has, and how each is built.

use crate::store::indexing::{is_vector_build, partitions_fit, scalar_builds, sub_vectors_fit, text_builds, vector_props, IndexBuildModel, IndexKind};
use crate::store::schema_ir::{NodeTypeDefModel, PropDefModel};
use crate::text::hex_fixed;
use crate::types::{scalar_named, ScalarType};
use vstd::prelude::*;

verus! {

/// A property marked with an index, which holds one value that is no vector, has a scalar
/// index, named after the type's identity and the property.
pub proof fn law_indexed_scalars_have_an_index(node: NodeTypeDefModel, k: int, n: int)
    requires
        0 <= k < n <= node.properties.len(),
        node.properties[k].index,
        !node.properties[k].list,
        !(scalar_named(node.properties[k].scalar_type) matches Some(ScalarType::Vector(_))),
    ensures
        exists|i: int|
            0 <= i < scalar_builds(node, n).len() && (#[trigger] scalar_builds(node, n)[i])
                == (IndexBuildModel {
                property: node.properties[k].name,
                index_name: "nano_"@ + hex_fixed(node.type_id as nat, 8) + "_"@
                    + node.properties[k].name + "_btree_idx"@,
                kind: IndexKind::Scalar,
            }),
    decreases n,
{
    let s = scalar_builds(node, n);
    let b = scalar_builds(node, n - 1);
    if k == n - 1 {
        assert(s[b.len() as int].property == node.properties[k].name);
    } else {
        law_indexed_scalars_have_an_index(node, k, n - 1);
        let i = choose|i: int|
            0 <= i < b.len() && (#[trigger] b[i]) == (IndexBuildModel {
                property: node.properties[k].name,
                index_name: "nano_"@ + hex_fixed(node.type_id as nat, 8) + "_"@
                    + node.properties[k].name + "_btree_idx"@,
                kind: IndexKind::Scalar,
            });
        assert(s[i] == b[i]);
    }
}

/// A property marked with an index, which holds one string, has a text index beside the
/// scalar one.
pub proof fn law_indexed_strings_are_searchable(node: NodeTypeDefModel, k: int, n: int)
    requires
        0 <= k < n <= node.properties.len(),
        node.properties[k].index,
        !node.properties[k].list,
        scalar_named(node.properties[k].scalar_type) == Some(ScalarType::String),
    ensures
        exists|i: int|
            0 <= i < text_builds(node, n).len() && (#[trigger] text_builds(node, n)[i])
                == (IndexBuildModel {
                property: node.properties[k].name,
                index_name: "nano_"@ + hex_fixed(node.type_id as nat, 8) + "_"@
                    + node.properties[k].name + "_fts_idx"@,
                kind: IndexKind::Text,
            }),
    decreases n,
{
    let s = text_builds(node, n);
    let b = text_builds(node, n - 1);
    if k == n - 1 {
        assert(s[b.len() as int].property == node.properties[k].name);
    } else {
        law_indexed_strings_are_searchable(node, k, n - 1);
        let i = choose|i: int|
            0 <= i < b.len() && (#[trigger] b[i]) == (IndexBuildModel {
                property: node.properties[k].name,
                index_name: "nano_"@ + hex_fixed(node.type_id as nat, 8) + "_"@
                    + node.properties[k].name + "_fts_idx"@,
                kind: IndexKind::Text,
            });
        assert(s[i] == b[i]);
    }
}

/// A property marked with an index, which holds one vector of some width, is among those
/// that get a vector index, with that width.
pub proof fn law_indexed_vectors_keep_their_width(
    node: NodeTypeDefModel,
    k: int,
    n: int,
    width: u32,
)
    requires
        0 <= k < n <= node.properties.len(),
        node.properties[k].index,
        !node.properties[k].list,
        width > 0,
        scalar_named(node.properties[k].scalar_type) == Some(ScalarType::Vector(width)),
    ensures
        exists|i: int|
            0 <= i < vector_props(node, n).len() && (#[trigger] vector_props(node, n)[i]) == (
                node.properties[k].name,
                width as usize,
            ),
    decreases n,
{
    let s = vector_props(node, n);
    let b = vector_props(node, n - 1);
    if k == n - 1 {
        assert(s[b.len() as int].0 == node.properties[k].name);
    } else {
        law_indexed_vectors_keep_their_width(node, k, n - 1, width);
        let i = choose|i: int|
            0 <= i < b.len() && (#[trigger] b[i]) == (node.properties[k].name, width as usize);
        assert(s[i] == b[i]);
    }
}

/// Whether a property of one value is marked with an index and has this name.
pub open spec fn is_indexed_as(p: PropDefModel, name: Seq<char>) -> bool {
    p.name == name && p.index && !p.list
}

/// Every scalar index is that of a property that is marked with one and holds one value
/// that is no vector.
pub proof fn law_scalar_indexes_are_asked_for(node: NodeTypeDefModel, n: int, i: int)
    requires
        0 <= n <= node.properties.len(),
        0 <= i < scalar_builds(node, n).len(),
    ensures
        exists|k: int|
            0 <= k < n && is_indexed_as(
                #[trigger] node.properties[k],
                scalar_builds(node, n)[i].property,
            ) && !(scalar_named(node.properties[k].scalar_type) matches Some(
                ScalarType::Vector(_),
            )),
        scalar_builds(node, n)[i].kind == IndexKind::Scalar,
        scalar_builds(node, n).len() <= n,
    decreases n,
{
    if n > 0 {
        let b = scalar_builds(node, n - 1);
        if b.len() > 0 {
            law_scalar_indexes_are_asked_for(node, n - 1, if i < b.len() { i } else { 0 });
        }
        if i < b.len() {
            assert(scalar_builds(node, n)[i] == b[i]);
        } else {
            assert(is_indexed_as(node.properties[n - 1], scalar_builds(node, n)[i].property));
        }
    }
}

/// Every text index is that of a property that is marked with an index and holds one string.
pub proof fn law_text_indexes_are_asked_for(node: NodeTypeDefModel, n: int, i: int)
    requires
        0 <= n <= node.properties.len(),
        0 <= i < text_builds(node, n).len(),
    ensures
        exists|k: int|
            0 <= k < n && is_indexed_as(
                #[trigger] node.properties[k],
                text_builds(node, n)[i].property,
            ) && scalar_named(node.properties[k].scalar_type) == Some(ScalarType::String),
        text_builds(node, n)[i].kind == IndexKind::Text,
        text_builds(node, n).len() <= n,
    decreases n,
{
    if n > 0 {
        let b = text_builds(node, n - 1);
        if b.len() > 0 {
            law_text_indexes_are_asked_for(node, n - 1, if i < b.len() { i } else { 0 });
        }
        if i < b.len() {
            assert(text_builds(node, n)[i] == b[i]);
        } else {
            assert(is_indexed_as(node.properties[n - 1], text_builds(node, n)[i].property));
        }
    }
}

/// Every property that gets a vector index is marked with one and holds one vector of the
/// width that the index is built for.
pub proof fn law_vector_indexes_are_asked_for(node: NodeTypeDefModel, n: int, i: int)
    requires
        0 <= n <= node.properties.len(),
        0 <= i < vector_props(node, n).len(),
    ensures
        exists|k: int|
            0 <= k < n && is_indexed_as(#[trigger] node.properties[k], vector_props(node, n)[i].0)
                && (scalar_named(node.properties[k].scalar_type) matches Some(
                ScalarType::Vector(width),
            ) && width > 0 && width as usize == vector_props(node, n)[i].1),
        vector_props(node, n).len() <= n,
    decreases n,
{
    if n > 0 {
        let b = vector_props(node, n - 1);
        if b.len() > 0 {
            law_vector_indexes_are_asked_for(node, n - 1, if i < b.len() { i } else { 0 });
        }
        if i < b.len() {
            assert(vector_props(node, n)[i] == b[i]);
        } else {
            assert(is_indexed_as(node.properties[n - 1], vector_props(node, n)[i].0));
        }
    }
}

/// A vector index of a table of 256 rows or more is quantised, in 8 bits and at most 50
/// rounds, and one of a smaller table is flat. Either is named after the type's identity and
/// the property.
pub proof fn law_small_vector_indexes_are_flat(
    b: IndexBuildModel,
    type_id: u32,
    property: Seq<char>,
    dim: usize,
    row_count: usize,
)
    requires
        is_vector_build(b, type_id, (property, dim), row_count),
    ensures
        b.property == property,
        b.index_name == "nano_"@ + hex_fixed(type_id as nat, 8) + "_"@ + property + "_ivfpq_idx"@,
        row_count < 256 <==> b.kind is IvfFlat,
        row_count >= 256 <==> b.kind is IvfPq,
        b.kind matches IndexKind::IvfPq { bits, max_iters, .. } ==> bits == 8 && max_iters == 50,
{
}

/// The partitions of a vector index are at most 256, and one where the table has at most
/// 1024 rows. Of a larger table up to 65792 rows, their number is the square root of the
/// number of rows to the nearest integer: no other has its square as close.
pub proof fn law_partitions_are_the_square_root(r: usize, row_count: usize)
    requires
        partitions_fit(r, row_count),
    ensures
        1 <= r <= 256,
        row_count <= 1024 ==> r == 1,
        1024 < row_count <= 65792 ==> (2 * r - 1) * (2 * r - 1) < 4 * row_count && 4 * row_count
            < (2 * r + 1) * (2 * r + 1),
        row_count > 65792 ==> r == 256,
{
    assert((2 * r - 1) * (2 * r - 1) == 4 * (r * r - r) + 1) by (nonlinear_arith);
    assert((2 * r + 1) * (2 * r + 1) == 4 * (r * r + r) + 1) by (nonlinear_arith);
    if row_count > 65792 && r < 256 {
        assert(r * r + r <= 65280) by (nonlinear_arith)
            requires
                r < 256,
        ;
    }
    if r == 256 {
        assert(r * r + r == 65792) by (nonlinear_arith)
            requires
                r == 256,
        ;
    }
}

/// The parts of a quantised vector divide it evenly, and no larger number of the permitted
/// ones does.
pub proof fn law_vector_parts_are_the_most_that_fit(r: usize, dim: usize, other: int)
    requires
        sub_vectors_fit(r, dim),
        dim > 0,
        other == 32 || other == 16 || other == 8 || other == 4 || other == 2 || other == 1,
        other <= dim,
        dim as int % other == 0,
    ensures
        dim as int % r as int == 0,
        other <= r <= dim,
{
}

} // verus!
