//! What the catalog knows of a schema, and where a plan finds the values of its variables.

use crate::arrow::{column_type, ArrowItem, ArrowType};
use crate::catalog::{annotated, annotation_value, catalog_error, edge_decl_check, edge_declared, edge_named, edge_type_of, edge_types_of, indexed_props, lowercase_first, node_decl_check, node_declared, node_type_of, node_types_of, prop_types, CatalogModel};
use crate::embedding_local::{counted, fitted, listed, output_dim_of, widened};
use crate::plan::bindings::{column_index, field_index, flat_name, property_source, variable_columns, variable_source, BindingColumnModel, PropertySource, VariableSourceModel};
use crate::schema::ast::{AnnotationModel, EdgeDeclModel, NodeDeclModel, PropDeclModel, SchemaDeclModel};
use crate::schema::validate::lemma_first_error;
use crate::strings::after_prefix;
use crate::text::{decimal, law_integers_are_made_of_digits, law_signed_decimals_are_read_back};
use crate::types::{scalar_named, vector_dim, PropTypeModel, ScalarType};
use vstd::prelude::*;

verus! {

// ---------------------------------------------------------------------------
// Columns

/// Each type of value has its own type of column, and a list of such values a list of such
/// items.
pub proof fn law_values_have_their_column(t: PropTypeModel)
    ensures
        !t.list ==> {
            &&& column_type(t) == ArrowType::Utf8 <==> t.scalar == ScalarType::String
            &&& column_type(t) == ArrowType::Boolean <==> t.scalar == ScalarType::Bool
            &&& column_type(t) == ArrowType::Int32 <==> t.scalar == ScalarType::I32
            &&& column_type(t) == ArrowType::Int64 <==> t.scalar == ScalarType::I64
            &&& column_type(t) == ArrowType::UInt32 <==> t.scalar == ScalarType::U32
            &&& column_type(t) == ArrowType::UInt64 <==> t.scalar == ScalarType::U64
            &&& column_type(t) == ArrowType::Float32 <==> t.scalar == ScalarType::F32
            &&& column_type(t) == ArrowType::Float64 <==> t.scalar == ScalarType::F64
            &&& column_type(t) == ArrowType::Date32 <==> t.scalar == ScalarType::Date
            &&& column_type(t) == ArrowType::Date64 <==> t.scalar == ScalarType::DateTime
            &&& t.scalar matches ScalarType::Vector(n) ==> column_type(t)
                == ArrowType::FixedSizeList(n)
        },
        t.list ==> {
            &&& column_type(t) == ArrowType::List(ArrowItem::Utf8) <==> t.scalar
                == ScalarType::String
            &&& column_type(t) == ArrowType::List(ArrowItem::Boolean) <==> t.scalar
                == ScalarType::Bool
            &&& column_type(t) == ArrowType::List(ArrowItem::Int32) <==> t.scalar == ScalarType::I32
            &&& column_type(t) == ArrowType::List(ArrowItem::Int64) <==> t.scalar == ScalarType::I64
            &&& column_type(t) == ArrowType::List(ArrowItem::UInt32) <==> t.scalar == ScalarType::U32
            &&& column_type(t) == ArrowType::List(ArrowItem::UInt64) <==> t.scalar == ScalarType::U64
            &&& column_type(t) == ArrowType::List(ArrowItem::Float32) <==> t.scalar
                == ScalarType::F32
            &&& column_type(t) == ArrowType::List(ArrowItem::Float64) <==> t.scalar
                == ScalarType::F64
            &&& column_type(t) == ArrowType::List(ArrowItem::Date32) <==> t.scalar
                == ScalarType::Date
            &&& column_type(t) == ArrowType::List(ArrowItem::Date64) <==> t.scalar
                == ScalarType::DateTime
            &&& t.scalar matches ScalarType::Vector(n) ==> column_type(t) == ArrowType::List(
                ArrowItem::FixedSizeList(n),
            )
        },
{
}

/// The table of a node type has the identity first and then a column for each property, in
/// order, which may hold nothing where the property may be missing.
pub proof fn law_node_tables_have_their_columns(n: NodeDeclModel, i: int)
    ensures
        node_type_of(n).name == n.name,
        node_type_of(n).arrow_schema.len() == n.properties.len() + 1,
        node_type_of(n).arrow_schema[0].name == "id"@,
        node_type_of(n).arrow_schema[0].data_type == ArrowType::UInt64,
        !node_type_of(n).arrow_schema[0].nullable,
        0 <= i < n.properties.len() ==> {
            let field = node_type_of(n).arrow_schema[i + 1];
            &&& field.name == n.properties[i].name
            &&& field.data_type == column_type(n.properties[i].prop_type)
            &&& field.nullable == n.properties[i].prop_type.nullable
        },
{
}

/// The table of an edge type has the identity, the source and the target first, in this
/// order, and then a column for each property.
pub proof fn law_edge_tables_have_their_columns(e: EdgeDeclModel, i: int)
    ensures
        edge_type_of(e).name == e.name,
        edge_type_of(e).from_type == e.from_type,
        edge_type_of(e).to_type == e.to_type,
        edge_type_of(e).arrow_schema.len() == e.properties.len() + 3,
        edge_type_of(e).arrow_schema[0].name == "id"@,
        edge_type_of(e).arrow_schema[1].name == "src"@,
        edge_type_of(e).arrow_schema[2].name == "dst"@,
        0 <= i < 3 ==> edge_type_of(e).arrow_schema[i].data_type == ArrowType::UInt64
            && !edge_type_of(e).arrow_schema[i].nullable,
        0 <= i < e.properties.len() ==> {
            let field = edge_type_of(e).arrow_schema[i + 3];
            &&& field.name == e.properties[i].name
            &&& field.data_type == column_type(e.properties[i].prop_type)
            &&& field.nullable == e.properties[i].prop_type.nullable
        },
{
}

// ---------------------------------------------------------------------------
// Properties

/// A property is known by its name with the type that it is declared with, the last of that
/// name, and no other name is known.
pub proof fn law_properties_have_their_type(props: Seq<PropDeclModel>, n: int, name: Seq<char>)
    requires
        0 <= n <= props.len(),
    ensures
        prop_types(props, n).contains_key(name) <==> exists|k: int|
            0 <= k < n && (#[trigger] props[k]).name == name,
        forall|k: int|
            0 <= k < n && (#[trigger] props[k]).name == name && (forall|j: int|
                k < j < n ==> (#[trigger] props[j]).name != name) ==> prop_types(props, n)[name]
                == props[k].prop_type,
    decreases n,
{
    if n > 0 {
        law_properties_have_their_type(props, n - 1, name);
        if props[n - 1].name != name && prop_types(props, n).contains_key(name) {
            let k = choose|k: int| 0 <= k < n - 1 && (#[trigger] props[k]).name == name;
            assert(props[k].name == name);
        }
        assert forall|k: int|
            0 <= k < n && (#[trigger] props[k]).name == name && (forall|j: int|
                k < j < n ==> (#[trigger] props[j]).name != name) implies prop_types(props, n)[name]
            == props[k].prop_type by {
            if k < n - 1 {
                assert(props[n - 1].name != name);
            }
        }
    }
}

proof fn lemma_annotation_value(anns: Seq<AnnotationModel>, name: Seq<char>, from: int, k: int)
    requires
        0 <= from <= k < anns.len(),
        anns[k].name == name,
        forall|j: int| from <= j < k ==> (#[trigger] anns[j]).name != name,
    ensures
        annotation_value(anns, name, from) == anns[k].value,
    decreases k - from,
{
    if from < k {
        assert(anns[from].name != name);
        lemma_annotation_value(anns, name, from + 1, k);
    }
}

proof fn lemma_no_annotation_value(anns: Seq<AnnotationModel>, name: Seq<char>, from: int)
    requires
        0 <= from <= anns.len(),
        forall|j: int| from <= j < anns.len() ==> (#[trigger] anns[j]).name != name,
    ensures
        annotation_value(anns, name, from) is None,
    decreases anns.len() - from,
{
    if from < anns.len() {
        assert(anns[from].name != name);
        lemma_no_annotation_value(anns, name, from + 1);
    }
}

/// A property that carries an annotation with a value leads to that value, the first of that
/// annotation: an embedding to its source, and media to their type. A property without the
/// annotation leads nowhere.
pub proof fn law_annotations_lead_to_their_value(
    props: Seq<PropDeclModel>,
    annotation: Seq<char>,
    n: int,
    i: int,
    k: int,
)
    requires
        0 <= i < n <= props.len(),
        forall|j: int| 0 <= j < n && j != i ==> (#[trigger] props[j]).name != props[i].name,
    ensures
        0 <= k < props[i].annotations.len() && props[i].annotations[k].name == annotation && (
        forall|j: int|
            0 <= j < k ==> (#[trigger] props[i].annotations[j]).name != annotation) ==> (
        annotated(props, annotation, n).contains_key(props[i].name)
            <==> props[i].annotations[k].value is Some) && (
        props[i].annotations[k].value matches Some(v) ==> annotated(
            props,
            annotation,
            n,
        )[props[i].name] == v),
        (forall|j: int|
            0 <= j < props[i].annotations.len() ==> (#[trigger] props[i].annotations[j]).name
                != annotation) ==> !annotated(props, annotation, n).contains_key(props[i].name),
    decreases n,
{
    if n - 1 > i {
        law_annotations_lead_to_their_value(props, annotation, n - 1, i, k);
        assert(props[n - 1].name != props[i].name);
    } else {
        lemma_not_annotated(props, annotation, n - 1, props[i].name);
        let anns = props[i].annotations;
        if 0 <= k < anns.len() && anns[k].name == annotation && (forall|j: int|
            0 <= j < k ==> (#[trigger] anns[j]).name != annotation) {
            lemma_annotation_value(anns, annotation, 0, k);
        }
        if forall|j: int| 0 <= j < anns.len() ==> (#[trigger] anns[j]).name != annotation {
            lemma_no_annotation_value(anns, annotation, 0);
        }
    }
}

proof fn lemma_not_annotated(props: Seq<PropDeclModel>, annotation: Seq<char>, n: int, name: Seq<char>)
    requires
        0 <= n <= props.len(),
        forall|j: int| 0 <= j < n ==> (#[trigger] props[j]).name != name,
    ensures
        !annotated(props, annotation, n).contains_key(name),
    decreases n,
{
    if n > 0 {
        lemma_not_annotated(props, annotation, n - 1, name);
        assert(props[n - 1].name != name);
    }
}

/// Whether a property carries an annotation.
pub open spec fn carries(p: PropDeclModel, annotation: Seq<char>) -> bool {
    exists|k: int| 0 <= k < p.annotations.len() && (#[trigger] p.annotations[k]).name == annotation
}

/// The embeddings, the media and the indexes that the catalog knows of a node type are those
/// of its own annotations: a property is indexed where it holds one value that is no vector
/// and is a key or marked with an index.
pub proof fn law_node_types_know_their_indexes(n: NodeDeclModel, name: Seq<char>)
    ensures
        node_type_of(n).embed_sources == annotated(
            n.properties,
            "embed"@,
            n.properties.len() as int,
        ),
        node_type_of(n).media_uri_props == annotated(
            n.properties,
            "media_uri"@,
            n.properties.len() as int,
        ),
        node_type_of(n).indexed_properties.contains(name) <==> exists|i: int|
            0 <= i < n.properties.len() && (#[trigger] n.properties[i]).name == name
                && !n.properties[i].prop_type.list && !(n.properties[i].prop_type.scalar is Vector)
                && (carries(n.properties[i], "key"@) || carries(n.properties[i], "index"@)),
{
    let len = n.properties.len() as int;
    assert forall|i: int, a: Seq<char>|
        0 <= i < len implies #[trigger] crate::schema::validate::has_annotation(
        n.properties[i].annotations,
        a,
    ) == carries(n.properties[i], a) by {
        let anns = n.properties[i].annotations;
        let p = n.properties[i];
        if crate::schema::validate::has_annotation(anns, a) {
            let k = choose|k: int| 0 <= k < anns.len() && #[trigger] anns[k].name == a;
            assert(p.annotations[k].name == a);
        }
        if carries(p, a) {
            let k = choose|k: int|
                0 <= k < p.annotations.len() && (#[trigger] p.annotations[k]).name == a;
            assert(anns[k].name == a);
        }
    }
    if node_type_of(n).indexed_properties.contains(name) {
        let i = choose|i: int|
            0 <= i < len && #[trigger] n.properties[i].name == name
                && crate::catalog::scalar_indexed(n.properties[i]);
        assert(n.properties[i].name == name);
        assert(crate::schema::validate::has_annotation(n.properties[i].annotations, "key"@)
            == carries(n.properties[i], "key"@));
        assert(crate::schema::validate::has_annotation(n.properties[i].annotations, "index"@)
            == carries(n.properties[i], "index"@));
    }
    if exists|i: int|
        0 <= i < n.properties.len() && (#[trigger] n.properties[i]).name == name
            && !n.properties[i].prop_type.list && !(n.properties[i].prop_type.scalar is Vector) && (
        carries(n.properties[i], "key"@) || carries(n.properties[i], "index"@)) {
        let i = choose|i: int|
            0 <= i < n.properties.len() && (#[trigger] n.properties[i]).name == name
                && !n.properties[i].prop_type.list && !(n.properties[i].prop_type.scalar is Vector)
                && (carries(n.properties[i], "key"@) || carries(n.properties[i], "index"@));
        assert(crate::schema::validate::has_annotation(n.properties[i].annotations, "key"@)
            == carries(n.properties[i], "key"@));
        assert(crate::schema::validate::has_annotation(n.properties[i].annotations, "index"@)
            == carries(n.properties[i], "index"@));
        assert(crate::catalog::scalar_indexed(n.properties[i]));
        assert(n.properties[i].name == name);
        assert(indexed_props(n.properties, len).contains(name));
    }
}

// ---------------------------------------------------------------------------
// Declarations

/// Whether a schema can be looked up: no two node types share a name, no two edge types do,
/// and both ends of every edge type are node types of it, wherever they stand.
pub open spec fn can_be_looked_up(s: Seq<SchemaDeclModel>) -> bool {
    &&& forall|i: int, j: int|
        0 <= i < j < s.len() && (#[trigger] s[i]) is Node && (#[trigger] s[j]) is Node
            ==> s[i]->Node_0.name != s[j]->Node_0.name
    &&& forall|i: int, j: int|
        0 <= i < j < s.len() && (#[trigger] s[i]) is Edge && (#[trigger] s[j]) is Edge
            ==> s[i]->Edge_0.name != s[j]->Edge_0.name
    &&& forall|i: int|
        0 <= i < s.len() && (#[trigger] s[i]) is Edge ==> names_a_node(s, s[i]->Edge_0.from_type)
            && names_a_node(s, s[i]->Edge_0.to_type)
}

/// Whether a node type of a schema has this name.
pub open spec fn names_a_node(s: Seq<SchemaDeclModel>, name: Seq<char>) -> bool {
    exists|j: int| 0 <= j < s.len() && (#[trigger] s[j]) is Node && s[j]->Node_0.name == name
}

proof fn lemma_names_a_node(s: Seq<SchemaDeclModel>, name: Seq<char>)
    ensures
        node_declared(s, name, s.len() as int) == names_a_node(s, name),
{
    if node_declared(s, name, s.len() as int) {
        let j = choose|j: int|
            0 <= j < s.len() && (#[trigger] s[j] matches SchemaDeclModel::Node(n) && n.name == name);
        assert(s[j] is Node);
    }
    if names_a_node(s, name) {
        let j = choose|j: int|
            0 <= j < s.len() && (#[trigger] s[j]) is Node && s[j]->Node_0.name == name;
        assert(s[j] matches SchemaDeclModel::Node(n) && n.name == name);
    }
}

/// A catalog is made exactly of the schemas that can be looked up.
pub proof fn law_catalogs_are_made_of_sound_schemas(s: Seq<SchemaDeclModel>)
    ensures
        catalog_error(s) is None <==> can_be_looked_up(s),
{
    let a = |i: int| node_decl_check(s, i);
    let b = |i: int| edge_decl_check(s, i);
    lemma_first_error(s.len(), a, 0);
    lemma_first_error(s.len(), b, 0);
    if catalog_error(s) is None {
        assert forall|i: int, j: int|
            0 <= i < j < s.len() && (#[trigger] s[i]) is Node && (#[trigger] s[j]) is Node implies s[i]->Node_0.name
            != s[j]->Node_0.name by {
            assert(a(j) is None);
            assert(!node_declared(s, s[j]->Node_0.name, j));
            assert(s[i] matches SchemaDeclModel::Node(n) && n.name == s[i]->Node_0.name);
        }
        assert forall|i: int, j: int|
            0 <= i < j < s.len() && (#[trigger] s[i]) is Edge && (#[trigger] s[j]) is Edge implies s[i]->Edge_0.name
            != s[j]->Edge_0.name by {
            assert(b(j) is None);
            assert(!edge_declared(s, s[j]->Edge_0.name, j));
            assert(s[i] matches SchemaDeclModel::Edge(e) && e.name == s[i]->Edge_0.name);
        }
        assert forall|i: int| 0 <= i < s.len() && (#[trigger] s[i]) is Edge implies names_a_node(
            s,
            s[i]->Edge_0.from_type,
        ) && names_a_node(s, s[i]->Edge_0.to_type) by {
            assert(b(i) is None);
            lemma_names_a_node(s, s[i]->Edge_0.from_type);
            lemma_names_a_node(s, s[i]->Edge_0.to_type);
        }
    }
    if can_be_looked_up(s) {
        assert forall|i: int| 0 <= i < s.len() implies #[trigger] a(i) is None by {
            if s[i] is Node && node_declared(s, s[i]->Node_0.name, i) {
                let j = choose|j: int|
                    0 <= j < i && (#[trigger] s[j] matches SchemaDeclModel::Node(n) && n.name
                        == s[i]->Node_0.name);
                assert(s[j] is Node && s[i] is Node);
            }
        }
        assert forall|i: int| 0 <= i < s.len() implies #[trigger] b(i) is None by {
            if s[i] is Edge {
                lemma_names_a_node(s, s[i]->Edge_0.from_type);
                lemma_names_a_node(s, s[i]->Edge_0.to_type);
                if edge_declared(s, s[i]->Edge_0.name, i) {
                    let j = choose|j: int|
                        0 <= j < i && (#[trigger] s[j] matches SchemaDeclModel::Edge(e) && e.name
                            == s[i]->Edge_0.name);
                    assert(s[j] is Edge && s[i] is Edge);
                }
            }
        }
    }
}

/// The catalog knows no type that the schema does not declare.
pub proof fn law_no_type_is_made_up(s: Seq<SchemaDeclModel>, n: int, name: Seq<char>)
    requires
        0 <= n <= s.len(),
    ensures
        node_types_of(s, n).contains_key(name) ==> exists|i: int|
            0 <= i < n && (#[trigger] s[i]) is Node && s[i]->Node_0.name == name,
        edge_types_of(s, n).contains_key(name) ==> exists|i: int|
            0 <= i < n && (#[trigger] s[i]) is Edge && s[i]->Edge_0.name == name,
    decreases n,
{
    if n > 0 {
        law_no_type_is_made_up(s, n - 1, name);
        if node_types_of(s, n).contains_key(name) {
            if node_types_of(s, n - 1).contains_key(name) {
                let i = choose|i: int|
                    0 <= i < n - 1 && (#[trigger] s[i]) is Node && s[i]->Node_0.name == name;
                assert(s[i] is Node);
            } else {
                assert(s[n - 1] is Node);
            }
        }
        if edge_types_of(s, n).contains_key(name) {
            if edge_types_of(s, n - 1).contains_key(name) {
                let i = choose|i: int|
                    0 <= i < n - 1 && (#[trigger] s[i]) is Edge && s[i]->Edge_0.name == name;
                assert(s[i] is Edge);
            } else {
                assert(s[n - 1] is Edge);
            }
        }
    }
}

/// A name with its first character in lower case keeps the characters behind it.
pub proof fn law_lower_case_names_keep_their_end(name: Seq<char>)
    requires
        name.len() > 0,
    ensures
        lowercase_first(name).len() + 1 >= name.len(),
        lowercase_first(name).skip(lowercase_first(name).len() - (name.len() - 1)) == name.skip(1),
        lowercase_first(Seq::empty()) == Seq::<char>::empty(),
{
    let s = lowercase_first(name);
    assert(s.skip(s.len() - (name.len() - 1)) =~= name.skip(1));
}

/// The name of an edge type counts before a name in lower case, and what neither is finds
/// nothing.
pub proof fn law_names_count_before_lower_case(c: CatalogModel, name: Seq<char>)
    ensures
        c.edge_types.contains_key(name) ==> edge_named(c, name) == Some(c.edge_types[name]),
        !c.edge_types.contains_key(name) && !c.edge_name_index.contains_key(name) ==> edge_named(
            c,
            name,
        ) is None,
{
}

// ---------------------------------------------------------------------------
// Bindings

proof fn lemma_column_index(cols: Seq<BindingColumnModel>, name: Seq<char>, from: int)
    requires
        0 <= from <= cols.len(),
    ensures
        match column_index(cols, name, from) {
            Some(i) => from <= i < cols.len() && cols[i].name == name && forall|j: int|
                from <= j < i ==> (#[trigger] cols[j]).name != name,
            None => forall|j: int| from <= j < cols.len() ==> (#[trigger] cols[j]).name != name,
        },
    decreases cols.len() - from,
{
    if from < cols.len() && cols[from].name != name {
        lemma_column_index(cols, name, from + 1);
    }
}

proof fn lemma_field_index(names: Seq<Seq<char>>, name: Seq<char>, from: int)
    requires
        0 <= from <= names.len(),
    ensures
        match field_index(names, name, from) {
            Some(i) => from <= i < names.len() && names[i] == name && forall|j: int|
                from <= j < i ==> #[trigger] names[j] != name,
            None => forall|j: int| from <= j < names.len() ==> #[trigger] names[j] != name,
        },
    decreases names.len() - from,
{
    if from < names.len() && names[from] != name {
        lemma_field_index(names, name, from + 1);
    }
}

/// A property of a variable is found in the first column named after both; where there is
/// none, in the field of that name of the first column named after the variable; and it is
/// refused where there is neither.
pub proof fn law_properties_are_found_where_they_are(
    cols: Seq<BindingColumnModel>,
    variable: Seq<char>,
    property: Seq<char>,
)
    requires
        cols.len() <= usize::MAX,
        forall|i: int| 0 <= i < cols.len() ==> ((#[trigger] cols[i]).fields matches Some(f)
            ==> f.len() <= usize::MAX),
    ensures
        ({
            let flat = variable + "::"@ + property;
            match property_source(cols, variable, property) {
                Ok(PropertySource::Column(i)) => i < cols.len() && cols[i as int].name == flat
                    && forall|j: int| 0 <= j < i ==> (#[trigger] cols[j]).name != flat,
                Ok(PropertySource::StructField { column, field }) => {
                    &&& forall|j: int| 0 <= j < cols.len() ==> (#[trigger] cols[j]).name != flat
                    &&& column < cols.len() && cols[column as int].name == variable
                    &&& forall|j: int| 0 <= j < column ==> (#[trigger] cols[j]).name != variable
                    &&& cols[column as int].fields matches Some(names) && field < names.len()
                        && names[field as int] == property && forall|j: int|
                        0 <= j < field ==> #[trigger] names[j] != property
                },
                Err(_) => {
                    &&& forall|j: int| 0 <= j < cols.len() ==> (#[trigger] cols[j]).name != flat
                    &&& (forall|j: int| 0 <= j < cols.len() ==> (#[trigger] cols[j]).name
                        != variable) || (exists|i: int|
                        0 <= i < cols.len() && (#[trigger] cols[i]).name == variable && (forall|
                            j: int,
                        |
                            0 <= j < i ==> (#[trigger] cols[j]).name != variable) && (
                        cols[i].fields matches Some(names) ==> !names.contains(property)))
                },
            }
        }),
{
    let flat = flat_name(variable, property);
    lemma_column_index(cols, flat, 0);
    lemma_column_index(cols, variable, 0);
    if let Some(i) = column_index(cols, variable, 0) {
        assert(cols[i].name == variable);
        if let Some(names) = cols[i].fields {
            lemma_field_index(names, property, 0);
        }
    }
}

/// Whether a column is the one of a property of a variable.
pub open spec fn is_property_column(cols: Seq<BindingColumnModel>, variable: Seq<char>, part: (Seq<char>, usize)) -> bool {
    part.1 < cols.len() && cols[part.1 as int].name == variable + "::"@ + part.0
}

/// The columns of a variable are those named after it and a property, each with its property
/// and its position, and all of them.
pub proof fn law_variables_have_their_columns(
    cols: Seq<BindingColumnModel>,
    variable: Seq<char>,
    n: int,
    k: int,
    property: Seq<char>,
)
    requires
        0 <= n <= cols.len() <= usize::MAX,
    ensures
        forall|i: int|
            0 <= i < variable_columns(cols, variable, n).len() ==> is_property_column(
                cols,
                variable,
                #[trigger] variable_columns(cols, variable, n)[i],
            ) && variable_columns(cols, variable, n)[i].1 < n,
        0 <= k < n && cols[k].name == variable + "::"@ + property ==> variable_columns(
            cols,
            variable,
            n,
        ).contains((property, k as usize)),
    decreases n,
{
    if n > 0 {
        law_variables_have_their_columns(cols, variable, n - 1, k, property);
        let before = variable_columns(cols, variable, n - 1);
        let all = variable_columns(cols, variable, n);
        let prefix = variable + "::"@;
        let name = cols[n - 1].name;
        if let Some(p) = after_prefix(name, prefix) {
            assert(name =~= prefix + p);
            assert(all[before.len() as int] == (p, (n - 1) as usize));
        }
        assert forall|i: int| 0 <= i < all.len() implies is_property_column(
            cols,
            variable,
            #[trigger] all[i],
        ) && all[i].1 < n by {
            if i < before.len() {
                assert(all[i] == before[i]);
            }
        }
        if 0 <= k < n && cols[k].name == variable + "::"@ + property {
            if k == n - 1 {
                assert((prefix + property).take(prefix.len() as int) =~= prefix);
                assert((prefix + property).skip(prefix.len() as int) =~= property);
                assert(all[before.len() as int] == (property, k as usize));
            } else {
                let i = choose|i: int| 0 <= i < before.len() && before[i] == (property, k as usize);
                assert(all[i] == before[i]);
            }
        }
    }
}

/// A variable is its own column, the first of its name, or else made of the columns of its
/// properties; it is refused where there is neither.
pub proof fn law_variables_are_found_where_they_are(cols: Seq<BindingColumnModel>, variable: Seq<char>)
    requires
        cols.len() <= usize::MAX,
    ensures
        match variable_source(cols, variable) {
            Ok(VariableSourceModel::Column(i)) => i < cols.len() && cols[i as int].name == variable
                && forall|j: int| 0 <= j < i ==> (#[trigger] cols[j]).name != variable,
            Ok(VariableSourceModel::Columns(parts)) => parts.len() > 0 && parts == variable_columns(
                cols,
                variable,
                cols.len() as int,
            ) && forall|j: int| 0 <= j < cols.len() ==> (#[trigger] cols[j]).name != variable,
            Err(_) => variable_columns(cols, variable, cols.len() as int).len() == 0 && forall|j: int|
                0 <= j < cols.len() ==> (#[trigger] cols[j]).name != variable,
        },
{
    lemma_column_index(cols, variable, 0);
}

// ---------------------------------------------------------------------------
// Inputs of a local model

/// A text is cut or filled to its length: what fits is kept in place, and zeros stand behind.
pub proof fn law_inputs_keep_what_fits(v: Seq<u32>, len: nat, i: int)
    requires
        0 <= i < len,
    ensures
        fitted(widened(v), len).len() == len,
        i < v.len() ==> fitted(widened(v), len)[i] == v[i],
        i >= v.len() ==> fitted(widened(v), len)[i] == 0,
{
}

/// The positions that count are those whose mask is not zero, all of them, in order.
pub proof fn law_masked_positions_do_not_count(mask: Seq<i64>, n: int, k: int)
    requires
        0 <= n <= mask.len() <= usize::MAX,
    ensures
        0 <= k < n ==> (counted(mask, n).contains(k as usize) <==> mask[k] != 0),
        forall|i: int| 0 <= i < counted(mask, n).len() ==> #[trigger] counted(mask, n)[i] < n,
        forall|i: int, j: int|
            0 <= i < j < counted(mask, n).len() ==> (#[trigger] counted(mask, n)[i]) < (
            #[trigger] counted(mask, n)[j]),
    decreases n,
{
    if n > 0 {
        law_masked_positions_do_not_count(mask, n - 1, k);
        let before = counted(mask, n - 1);
        let all = counted(mask, n);
        if mask[n - 1] != 0 {
            assert(all[before.len() as int] == n - 1);
            if 0 <= k < n - 1 {
                if before.contains(k as usize) {
                    let i = choose|i: int| 0 <= i < before.len() && before[i] == k as usize;
                    assert(all[i] == k as usize);
                }
                if all.contains(k as usize) {
                    let i = choose|i: int| 0 <= i < all.len() && all[i] == k as usize;
                    assert(before[i] == k as usize);
                }
            }
        } else if k == n - 1 {
            if before.contains(k as usize) {
                let i = choose|i: int| 0 <= i < before.len() && before[i] == k as usize;
                assert(before[i] < n - 1);
            }
        }
    }
}

/// The width of a model's vectors is the last extent of its output, which has at least two.
pub proof fn law_width_is_the_last_extent(shape: Seq<usize>)
    ensures
        output_dim_of(shape) is Ok <==> shape.len() >= 2,
        output_dim_of(shape) matches Ok(d) ==> d == shape[shape.len() - 1],
{
}

// ---------------------------------------------------------------------------
// Names of types

/// The name of a vector type is its width between brackets; no vector is 0 wide, or wider
/// than 2147483647.
pub proof fn law_vector_names_have_their_width(n: nat)
    ensures
        0 < n <= 2147483647 ==> scalar_named("Vector("@ + decimal(n) + ")"@) == Some(
            ScalarType::Vector(n as u32),
        ),
        n == 0 || n > 2147483647 ==> scalar_named("Vector("@ + decimal(n) + ")"@) is None,
{
    reveal_strlit("Vector(");
    reveal_strlit(")");
    reveal_strlit("String");
    reveal_strlit("Bool");
    reveal_strlit("I32");
    reveal_strlit("I64");
    reveal_strlit("U32");
    reveal_strlit("U64");
    reveal_strlit("F32");
    reveal_strlit("F64");
    reveal_strlit("Date");
    reveal_strlit("DateTime");
    assert("String"@[0] == 'S' && "Bool"@[0] == 'B' && "I32"@[0] == 'I' && "I64"@[0] == 'I');
    assert("U32"@[0] == 'U' && "U64"@[0] == 'U' && "F32"@[0] == 'F' && "F64"@[0] == 'F');
    assert("Date"@[0] == 'D' && "DateTime"@[0] == 'D');
    let s = "Vector("@ + decimal(n) + ")"@;
    assert(s[0] == 'V');
    assert(s.take(7) =~= "Vector("@);
    assert(s.last() == ')');
    assert(s.subrange(7, s.len() - 1) =~= decimal(n));
    law_signed_decimals_are_read_back(n, 0, u32::MAX as int);
}

/// A type that is declared twice is told by its name, and an end that is no node type by the
/// edge, which end it is, and its name: the source before the target.
pub proof fn law_broken_schemas_are_told(s: Seq<SchemaDeclModel>, i: int)
    requires
        0 <= i < s.len(),
    ensures
        s[i] is Node ==> (node_decl_check(s, i) matches Some(m) ==> m == "duplicate node type: "@
            + s[i]->Node_0.name),
        s[i] is Edge && edge_declared(s, s[i]->Edge_0.name, i) ==> edge_decl_check(s, i) == Some(
            "duplicate edge type: "@ + s[i]->Edge_0.name,
        ),
        s[i] is Edge && !edge_declared(s, s[i]->Edge_0.name, i) && !names_a_node(
            s,
            s[i]->Edge_0.from_type,
        ) ==> edge_decl_check(s, i) == Some(
            "edge "@ + s[i]->Edge_0.name + " references unknown source type: "@
                + s[i]->Edge_0.from_type,
        ),
        s[i] is Edge && !edge_declared(s, s[i]->Edge_0.name, i) && names_a_node(
            s,
            s[i]->Edge_0.from_type,
        ) && !names_a_node(s, s[i]->Edge_0.to_type) ==> edge_decl_check(s, i) == Some(
            "edge "@ + s[i]->Edge_0.name + " references unknown target type: "@
                + s[i]->Edge_0.to_type,
        ),
{
    if s[i] is Edge {
        lemma_names_a_node(s, s[i]->Edge_0.from_type);
        lemma_names_a_node(s, s[i]->Edge_0.to_type);
    }
}

/// A name that means a vector type is made of `Vector(`, digits and a closing bracket.
pub proof fn law_only_vector_names_mean_vectors(name: Seq<char>, k: int)
    requires
        scalar_named(name) matches Some(ScalarType::Vector(_)),
    ensures
        name.len() > 8,
        name.take(7) == "Vector("@,
        name.last() == ')',
        7 <= k < name.len() - 1 ==> '0' <= name[k] <= '9' || (k == 7 && name[k] == '+'),
{
    reveal_strlit("Vector(");
    let digits = name.subrange(7, name.len() - 1);
    assert(vector_dim(name) is Some);
    assert(digits.len() > 0);
    if 7 <= k < name.len() - 1 {
        law_integers_are_made_of_digits(digits, 0, u32::MAX as int, k - 7);
        assert(digits[k - 7] == name[k]);
    }
}

/// An output of too few extents is refused with those that it has.
pub proof fn law_refused_outputs_tell_their_extents(d: usize)
    ensures
        output_dim_of(Seq::<usize>::empty()) == Err::<usize, Seq<char>>(
            "local embedding model output has unexpected shape: ["@ + "]"@,
        ),
        output_dim_of(seq![d]) == Err::<usize, Seq<char>>(
            "local embedding model output has unexpected shape: ["@ + (decimal(d as nat) + "]"@),
        ),
{
    reveal_with_fuel(listed, 2);
}

/// The extents of an output are listed in order, with a comma between each two.
pub proof fn law_extents_are_listed_in_order(shape: Seq<usize>, i: int)
    requires
        0 < i < shape.len(),
    ensures
        listed(shape, i) == ", "@ + decimal(shape[i] as nat) + listed(shape, i + 1),
        listed(shape, 0) == decimal(shape[0] as nat) + listed(shape, 1),
        listed(shape, shape.len() as int) == "]"@,
{
}

} // verus!
