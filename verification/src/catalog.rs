//! The catalog: what a schema declares, ready for lookup.

use crate::arrow::{column_type, ArrowField, ArrowFieldModel, ArrowSchema, ArrowType};
use crate::error::NanoError;
use crate::names::{NameMap, NameSet};
use crate::schema::ast::{Annotation, AnnotationModel, EdgeDecl, EdgeDeclModel, NodeDecl, NodeDeclModel, PropDecl, PropDeclModel, SchemaDecl, SchemaDeclModel, SchemaFile};
use crate::schema::validate::{first_error, has_annotation, lemma_first_error, or_else};
use crate::text::{cat2, cat4, copy_opt, lemma_views_push, opt_view, same, views};
use crate::types::{PropType, PropTypeModel, ScalarType};
use vstd::prelude::*;

verus! {

// ---------------------------------------------------------------------------
// The first character of a name in lower case

/// What `char::to_lowercase` maps a character to.
pub uninterp spec fn char_lowercase(c: char) -> Seq<char>;

/// `char::to_lowercase`, its characters collected: the Unicode lower case mapping of
/// one character. Which characters these are is left to the name.
#[verifier::external_body]
pub(crate) fn lowercase_of(c: char) -> (r: String)
    ensures
        r@ == char_lowercase(c),
{
    c.to_lowercase().collect()
}

/// A name with its first character in lower case.
pub open spec fn lowercase_first(name: Seq<char>) -> Seq<char> {
    if name.len() == 0 {
        name
    } else {
        char_lowercase(name[0]) + name.skip(1)
    }
}

/// A name with its first character in lower case.
pub fn lowercase_first_char(name: &str) -> (r: String)
    ensures
        r@ == lowercase_first(name@),
{
    let n: usize = name.unicode_len();
    if n == 0 {
        return name.to_owned();
    }
    let mut out = lowercase_of(name.get_char(0));
    let rest = name.substring_char(1, n);
    assert(rest@ =~= name@.skip(1));
    out.append(rest);
    out
}

// ---------------------------------------------------------------------------
// Node and edge types

/// A node type of the catalog.
#[derive(Debug)]
pub struct NodeType {
    pub name: String,
    pub properties: NameMap<PropType>,
    /// From an `@embed` property to the property its text comes from.
    pub embed_sources: NameMap<String>,
    /// From a `@media_uri` property to its mime property.
    pub media_uri_props: NameMap<String>,
    pub indexed_properties: NameSet,
    pub arrow_schema: ArrowSchema,
}

/// The mathematical value of a `NodeType`.
#[verifier::ext_equal]
pub struct NodeTypeModel {
    pub name: Seq<char>,
    pub properties: Map<Seq<char>, PropTypeModel>,
    pub embed_sources: Map<Seq<char>, Seq<char>>,
    pub media_uri_props: Map<Seq<char>, Seq<char>>,
    pub indexed_properties: Set<Seq<char>>,
    pub arrow_schema: Seq<ArrowFieldModel>,
}

impl View for NodeType {
    type V = NodeTypeModel;

    open spec fn view(&self) -> NodeTypeModel {
        NodeTypeModel {
            name: self.name@,
            properties: self.properties@,
            embed_sources: self.embed_sources@,
            media_uri_props: self.media_uri_props@,
            indexed_properties: self.indexed_properties@,
            arrow_schema: self.arrow_schema@,
        }
    }
}

/// An edge type of the catalog.
#[derive(Debug)]
pub struct EdgeType {
    pub name: String,
    pub from_type: String,
    pub to_type: String,
    pub properties: NameMap<PropType>,
    pub arrow_schema: ArrowSchema,
}

/// The mathematical value of an `EdgeType`.
#[verifier::ext_equal]
pub struct EdgeTypeModel {
    pub name: Seq<char>,
    pub from_type: Seq<char>,
    pub to_type: Seq<char>,
    pub properties: Map<Seq<char>, PropTypeModel>,
    pub arrow_schema: Seq<ArrowFieldModel>,
}

impl View for EdgeType {
    type V = EdgeTypeModel;

    open spec fn view(&self) -> EdgeTypeModel {
        EdgeTypeModel {
            name: self.name@,
            from_type: self.from_type@,
            to_type: self.to_type@,
            properties: self.properties@,
            arrow_schema: self.arrow_schema@,
        }
    }
}

/// What a schema declares.
#[derive(Debug)]
pub struct Catalog {
    pub node_types: NameMap<NodeType>,
    pub edge_types: NameMap<EdgeType>,
    /// From an edge name with its first character in lower case to the edge name.
    pub edge_name_index: NameMap<String>,
}

/// The mathematical value of a `Catalog`.
pub struct CatalogModel {
    pub node_types: Map<Seq<char>, NodeTypeModel>,
    pub edge_types: Map<Seq<char>, EdgeTypeModel>,
    pub edge_name_index: Map<Seq<char>, Seq<char>>,
}

impl View for Catalog {
    type V = CatalogModel;

    open spec fn view(&self) -> CatalogModel {
        CatalogModel {
            node_types: self.node_types@,
            edge_types: self.edge_types@,
            edge_name_index: self.edge_name_index@,
        }
    }
}

/// The edge type that a name stands for: the one of exactly that name, else the one whose
/// name with its first character in lower case it is.
pub open spec fn edge_named(c: CatalogModel, name: Seq<char>) -> Option<EdgeTypeModel> {
    if c.edge_types.contains_key(name) {
        Some(c.edge_types[name])
    } else if c.edge_name_index.contains_key(name) && c.edge_types.contains_key(
        c.edge_name_index[name],
    ) {
        Some(c.edge_types[c.edge_name_index[name]])
    } else {
        None
    }
}

impl Catalog {
    pub fn lookup_edge_by_name(&self, name: &str) -> (r: Option<&EdgeType>)
        ensures
            match r {
                Some(e) => edge_named(self@, name@) == Some(e@),
                None => edge_named(self@, name@) is None,
            },
    {
        if let Some(e) = self.edge_types.get(name) {
            return Some(e);
        }
        if let Some(key) = self.edge_name_index.get(name) {
            return self.edge_types.get(key);
        }
        None
    }
}

// ---------------------------------------------------------------------------
// What the declarations give

/// The value of the first annotation of a given name.
pub open spec fn annotation_value(anns: Seq<AnnotationModel>, name: Seq<char>, i: int) -> Option<
    Seq<char>,
>
    decreases anns.len() - i,
{
    if i < 0 || i >= anns.len() {
        None
    } else if anns[i].name == name {
        anns[i].value
    } else {
        annotation_value(anns, name, i + 1)
    }
}

/// The types of the first `n` properties by name; of two that share a name the later counts.
pub open spec fn prop_types(props: Seq<PropDeclModel>, n: int) -> Map<Seq<char>, PropTypeModel>
    decreases n,
{
    if n <= 0 {
        Map::empty()
    } else {
        prop_types(props, n - 1).insert(props[n - 1].name, props[n - 1].prop_type)
    }
}

/// The values of an annotation of the first `n` properties, by property.
pub open spec fn annotated(props: Seq<PropDeclModel>, annotation: Seq<char>, n: int) -> Map<
    Seq<char>,
    Seq<char>,
>
    decreases n,
{
    if n <= 0 {
        Map::empty()
    } else {
        let before = annotated(props, annotation, n - 1);
        match annotation_value(props[n - 1].annotations, annotation, 0) {
            Some(v) => before.insert(props[n - 1].name, v),
            None => before,
        }
    }
}

/// Whether a property gets a scalar index: a key or an `@index` on a plain scalar.
pub open spec fn scalar_indexed(p: PropDeclModel) -> bool {
    &&& !p.prop_type.list
    &&& !(p.prop_type.scalar is Vector)
    &&& has_annotation(p.annotations, "key"@) || has_annotation(p.annotations, "index"@)
}

/// The names of the properties among the first `n` that get a scalar index.
pub open spec fn indexed_props(props: Seq<PropDeclModel>, n: int) -> Set<Seq<char>> {
    Set::new(
        |name: Seq<char>|
            exists|i: int|
                0 <= i < n && #[trigger] props[i].name == name && scalar_indexed(props[i]),
    )
}

pub open spec fn prop_field(p: PropDeclModel) -> ArrowFieldModel {
    ArrowFieldModel {
        name: p.name,
        data_type: column_type(p.prop_type),
        nullable: p.prop_type.nullable,
    }
}

pub open spec fn id_field(name: Seq<char>) -> ArrowFieldModel {
    ArrowFieldModel { name, data_type: ArrowType::UInt64, nullable: false }
}

pub open spec fn prop_fields(props: Seq<PropDeclModel>) -> Seq<ArrowFieldModel> {
    Seq::new(props.len(), |i: int| prop_field(props[i]))
}

/// The node type that a declaration gives.
pub open spec fn node_type_of(n: NodeDeclModel) -> NodeTypeModel {
    let len = n.properties.len() as int;
    NodeTypeModel {
        name: n.name,
        properties: prop_types(n.properties, len),
        embed_sources: annotated(n.properties, "embed"@, len),
        media_uri_props: annotated(n.properties, "media_uri"@, len),
        indexed_properties: indexed_props(n.properties, len),
        arrow_schema: seq![id_field("id"@)] + prop_fields(n.properties),
    }
}

/// The edge type that a declaration gives.
pub open spec fn edge_type_of(e: EdgeDeclModel) -> EdgeTypeModel {
    EdgeTypeModel {
        name: e.name,
        from_type: e.from_type,
        to_type: e.to_type,
        properties: prop_types(e.properties, e.properties.len() as int),
        arrow_schema: seq![id_field("id"@), id_field("src"@), id_field("dst"@)] + prop_fields(
            e.properties,
        ),
    }
}

/// Whether a node of the given name is declared before position `i`.
pub open spec fn node_declared(s: Seq<SchemaDeclModel>, name: Seq<char>, i: int) -> bool {
    exists|j: int| 0 <= j < i && (#[trigger] s[j] matches SchemaDeclModel::Node(n) && n.name == name)
}

/// Whether an edge of the given name is declared before position `i`.
pub open spec fn edge_declared(s: Seq<SchemaDeclModel>, name: Seq<char>, i: int) -> bool {
    exists|j: int| 0 <= j < i && (#[trigger] s[j] matches SchemaDeclModel::Edge(e) && e.name == name)
}

/// A node type is declared once.
pub open spec fn node_decl_check(s: Seq<SchemaDeclModel>, i: int) -> Option<Seq<char>> {
    match s[i] {
        SchemaDeclModel::Node(n) => if node_declared(s, n.name, i) {
            Some("duplicate node type: "@ + n.name)
        } else {
            None
        },
        SchemaDeclModel::Edge(_) => None,
    }
}

/// An edge type is declared once, between declared node types.
pub open spec fn edge_decl_check(s: Seq<SchemaDeclModel>, i: int) -> Option<Seq<char>> {
    match s[i] {
        SchemaDeclModel::Node(_) => None,
        SchemaDeclModel::Edge(e) => if edge_declared(s, e.name, i) {
            Some("duplicate edge type: "@ + e.name)
        } else if !node_declared(s, e.from_type, s.len() as int) {
            Some("edge "@ + e.name + " references unknown source type: "@ + e.from_type)
        } else if !node_declared(s, e.to_type, s.len() as int) {
            Some("edge "@ + e.name + " references unknown target type: "@ + e.to_type)
        } else {
            None
        },
    }
}

/// The first error of the declarations: nodes first, then edges.
pub open spec fn catalog_error(s: Seq<SchemaDeclModel>) -> Option<Seq<char>> {
    or_else(
        first_error(s.len(), |i: int| node_decl_check(s, i), 0),
        first_error(s.len(), |i: int| edge_decl_check(s, i), 0),
    )
}

/// The node types of the first `n` declarations.
pub open spec fn node_types_of(s: Seq<SchemaDeclModel>, n: int) -> Map<Seq<char>, NodeTypeModel>
    decreases n,
{
    if n <= 0 {
        Map::empty()
    } else {
        match s[n - 1] {
            SchemaDeclModel::Node(d) => node_types_of(s, n - 1).insert(d.name, node_type_of(d)),
            SchemaDeclModel::Edge(_) => node_types_of(s, n - 1),
        }
    }
}

/// The edge types of the first `n` declarations.
pub open spec fn edge_types_of(s: Seq<SchemaDeclModel>, n: int) -> Map<Seq<char>, EdgeTypeModel>
    decreases n,
{
    if n <= 0 {
        Map::empty()
    } else {
        match s[n - 1] {
            SchemaDeclModel::Edge(d) => edge_types_of(s, n - 1).insert(d.name, edge_type_of(d)),
            SchemaDeclModel::Node(_) => edge_types_of(s, n - 1),
        }
    }
}

/// The lower case index of the edges among the first `n` declarations; of two edges that
/// share an entry the later counts.
pub open spec fn edge_index_of(s: Seq<SchemaDeclModel>, n: int) -> Map<Seq<char>, Seq<char>>
    decreases n,
{
    if n <= 0 {
        Map::empty()
    } else {
        match s[n - 1] {
            SchemaDeclModel::Edge(d) => edge_index_of(s, n - 1).insert(
                lowercase_first(d.name),
                d.name,
            ),
            SchemaDeclModel::Node(_) => edge_index_of(s, n - 1),
        }
    }
}

/// The catalog of a schema.
pub open spec fn catalog_of(s: Seq<SchemaDeclModel>) -> CatalogModel {
    let n = s.len() as int;
    CatalogModel {
        node_types: node_types_of(s, n),
        edge_types: edge_types_of(s, n),
        edge_name_index: edge_index_of(s, n),
    }
}

// ---------------------------------------------------------------------------
// Building it

fn find_annotation_value(anns: &Vec<Annotation>, name: &str) -> (r: Option<String>)
    ensures
        opt_view(r) == annotation_value(views(anns@), name@, 0),
{
    let mut i: usize = 0;
    while i < anns.len()
        invariant
            i <= anns@.len(),
            annotation_value(views(anns@), name@, 0) == annotation_value(
                views(anns@),
                name@,
                i as int,
            ),
        decreases anns@.len() - i,
    {
        assert(views(anns@)[i as int] == anns@[i as int]@);
        if same(&anns[i].name, name) {
            return copy_opt(&anns[i].value);
        }
        i = i + 1;
    }
    None
}

fn carries_index(anns: &Vec<Annotation>) -> (r: bool)
    ensures
        r == (has_annotation(views(anns@), "key"@) || has_annotation(views(anns@), "index"@)),
{
    let mut i: usize = 0;
    while i < anns.len()
        invariant
            i <= anns@.len(),
            forall|j: int|
                0 <= j < i ==> views(anns@)[j].name != "key"@ && views(anns@)[j].name != "index"@,
        decreases anns@.len() - i,
    {
        if same(&anns[i].name, "key") || same(&anns[i].name, "index") {
            assert(views(anns@)[i as int].name == anns@[i as int].name@);
            return true;
        }
        i = i + 1;
    }
    false
}

fn index_eligible(p: &PropDecl) -> (r: bool)
    ensures
        r == scalar_indexed(p@),
{
    let vector = match p.prop_type.scalar {
        ScalarType::Vector(_) => true,
        _ => false,
    };
    !p.prop_type.list && !vector && carries_index(&p.annotations)
}

/// Appends the fields of the properties.
fn push_prop_fields(fields: Vec<ArrowField>, props: &Vec<PropDecl>) -> (r: Vec<ArrowField>)
    ensures
        views(r@) == views(fields@) + prop_fields(views(props@)),
{
    let ghost start = views(fields@);
    let ghost all = prop_fields(views(props@));
    let mut fields = fields;
    let mut i: usize = 0;
    assert(views(fields@) =~= start + all.take(0));
    while i < props.len()
        invariant
            i <= props@.len(),
            all == prop_fields(views(props@)),
            views(fields@) == start + all.take(i as int),
        decreases props@.len() - i,
    {
        let p = &props[i];
        let f = ArrowField::new(&p.name, p.prop_type.to_arrow(), p.prop_type.nullable);
        proof {
            lemma_views_push(fields@, f);
            assert(views(props@)[i as int] == p@);
            assert(all[i as int] == f@);
            assert(start + all.take(i as int + 1) =~= (start + all.take(i as int)).push(f@));
        }
        fields.push(f);
        i = i + 1;
    }
    assert(all.take(all.len() as int) =~= all);
    fields
}

fn build_prop_types(props: &Vec<PropDecl>) -> (r: NameMap<PropType>)
    ensures
        r@ == prop_types(views(props@), props@.len() as int),
{
    let mut m: NameMap<PropType> = NameMap::new();
    let mut i: usize = 0;
    while i < props.len()
        invariant
            i <= props@.len(),
            m@ == prop_types(views(props@), i as int),
        decreases props@.len() - i,
    {
        assert(views(props@)[i as int] == props@[i as int]@);
        m.insert(props[i].name.clone(), props[i].prop_type.copy());
        i = i + 1;
    }
    m
}

fn build_annotated(props: &Vec<PropDecl>, annotation: &str) -> (r: NameMap<String>)
    ensures
        r@ == annotated(views(props@), annotation@, props@.len() as int),
{
    let mut m: NameMap<String> = NameMap::new();
    let mut i: usize = 0;
    while i < props.len()
        invariant
            i <= props@.len(),
            m@ == annotated(views(props@), annotation@, i as int),
        decreases props@.len() - i,
    {
        assert(views(props@)[i as int] == props@[i as int]@);
        match find_annotation_value(&props[i].annotations, annotation) {
            Some(v) => {
                m.insert(props[i].name.clone(), v);
            },
            None => {},
        }
        i = i + 1;
    }
    m
}

fn build_indexed(props: &Vec<PropDecl>) -> (r: NameSet)
    ensures
        r@ == indexed_props(views(props@), props@.len() as int),
{
    let mut s = NameSet::new();
    let mut i: usize = 0;
    assert(s@ =~= indexed_props(views(props@), 0));
    while i < props.len()
        invariant
            i <= props@.len(),
            s@ == indexed_props(views(props@), i as int),
        decreases props@.len() - i,
    {
        let ghost all = views(props@);
        assert(all[i as int] == props@[i as int]@);
        proof {
            assert forall|name: Seq<char>| #[trigger]
                indexed_props(all, i as int + 1).contains(name) <==> (indexed_props(
                    all,
                    i as int,
                ).contains(name) || (scalar_indexed(all[i as int]) && name
                    == all[i as int].name)) by {
                if indexed_props(all, i as int).contains(name) {
                    let j = choose|j: int|
                        0 <= j < i && #[trigger] all[j].name == name && scalar_indexed(all[j]);
                    assert(all[j].name == name);
                }
            }
        }
        if index_eligible(&props[i]) {
            s.insert(props[i].name.clone());
        }
        assert(s@ =~= indexed_props(all, i as int + 1));
        i = i + 1;
    }
    s
}

fn build_node_type(node: &NodeDecl) -> (r: NodeType)
    ensures
        r@ == node_type_of(node@),
{
    let properties = build_prop_types(&node.properties);
    let embed_sources = build_annotated(&node.properties, "embed");
    let media_uri_props = build_annotated(&node.properties, "media_uri");
    let indexed_properties = build_indexed(&node.properties);
    let id = ArrowField::new("id", ArrowType::UInt64, false);
    let mut fields: Vec<ArrowField> = Vec::new();
    fields.push(id);
    assert(views(fields@) =~= seq![id_field("id"@)]);
    let fields = push_prop_fields(fields, &node.properties);
    NodeType {
        name: node.name.clone(),
        properties,
        embed_sources,
        media_uri_props,
        indexed_properties,
        arrow_schema: ArrowSchema { fields },
    }
}

fn build_edge_type(edge: &EdgeDecl) -> (r: EdgeType)
    ensures
        r@ == edge_type_of(edge@),
{
    let properties = build_prop_types(&edge.properties);
    let mut fields: Vec<ArrowField> = Vec::new();
    fields.push(ArrowField::new("id", ArrowType::UInt64, false));
    fields.push(ArrowField::new("src", ArrowType::UInt64, false));
    fields.push(ArrowField::new("dst", ArrowType::UInt64, false));
    assert(views(fields@) =~= seq![id_field("id"@), id_field("src"@), id_field("dst"@)]);
    let fields = push_prop_fields(fields, &edge.properties);
    EdgeType {
        name: edge.name.clone(),
        from_type: edge.from_type.clone(),
        to_type: edge.to_type.clone(),
        properties,
        arrow_schema: ArrowSchema { fields },
    }
}

/// The names of the node types are those of the declared nodes.
proof fn lemma_node_names(s: Seq<SchemaDeclModel>, n: int)
    requires
        0 <= n <= s.len(),
    ensures
        forall|name: Seq<char>|
            node_types_of(s, n).contains_key(name) <==> #[trigger] node_declared(s, name, n),
    decreases n,
{
    if n > 0 {
        lemma_node_names(s, n - 1);
        assert forall|name: Seq<char>|
            node_types_of(s, n).contains_key(name) <==> #[trigger] node_declared(s, name, n) by {
            assert(node_declared(s, name, n - 1) ==> node_declared(s, name, n));
            if node_declared(s, name, n) && !node_declared(s, name, n - 1) {
                let j = choose|j: int|
                    0 <= j < n && (#[trigger] s[j] matches SchemaDeclModel::Node(d) && d.name
                        == name);
                assert(j == n - 1);
            }
            if let SchemaDeclModel::Node(d) = s[n - 1] {
                if d.name == name {
                    assert(node_declared(s, name, n));
                }
            }
        }
    }
}

/// The names of the edge types are those of the declared edges.
proof fn lemma_edge_names(s: Seq<SchemaDeclModel>, n: int)
    requires
        0 <= n <= s.len(),
    ensures
        forall|name: Seq<char>|
            edge_types_of(s, n).contains_key(name) <==> #[trigger] edge_declared(s, name, n),
    decreases n,
{
    if n > 0 {
        lemma_edge_names(s, n - 1);
        assert forall|name: Seq<char>|
            edge_types_of(s, n).contains_key(name) <==> #[trigger] edge_declared(s, name, n) by {
            assert(edge_declared(s, name, n - 1) ==> edge_declared(s, name, n));
            if edge_declared(s, name, n) && !edge_declared(s, name, n - 1) {
                let j = choose|j: int|
                    0 <= j < n && (#[trigger] s[j] matches SchemaDeclModel::Edge(d) && d.name
                        == name);
                assert(j == n - 1);
            }
            if let SchemaDeclModel::Edge(d) = s[n - 1] {
                if d.name == name {
                    assert(edge_declared(s, name, n));
                }
            }
        }
    }
}

/// Builds the catalog of a schema, or reports the first declaration that has no place in it.
pub fn build_catalog(schema: &SchemaFile) -> (r: Result<Catalog, NanoError>)
    ensures
        match r {
            Ok(c) => catalog_error(schema@) is None && c@ == catalog_of(schema@),
            Err(NanoError::Catalog(m)) => catalog_error(schema@) == Some(m@),
            Err(_) => false,
        },
{
    let ghost s = schema@;
    let ghost node_check = |i: int| node_decl_check(s, i);
    let ghost edge_check = |i: int| edge_decl_check(s, i);
    let mut node_types: NameMap<NodeType> = NameMap::new();
    let mut edge_types: NameMap<EdgeType> = NameMap::new();
    let mut edge_name_index: NameMap<String> = NameMap::new();

    let mut i: usize = 0;
    while i < schema.declarations.len()
        invariant
            i <= schema.declarations@.len(),
            s == schema@,
            node_check == (|i: int| node_decl_check(s, i)),
            first_error(s.len(), node_check, 0) == first_error(s.len(), node_check, i as int),
            node_types@ == node_types_of(s, i as int),
        decreases schema.declarations@.len() - i,
    {
        assert(s[i as int] == schema.declarations@[i as int]@);
        proof {
            lemma_node_names(s, i as int);
        }
        if let SchemaDecl::Node(node) = &schema.declarations[i] {
            if node_types.contains_key(&node.name) {
                assert(node_declared(s, node.name@, i as int));
                return Err(NanoError::Catalog(cat2("duplicate node type: ", &node.name)));
            }
            assert(!node_declared(s, node.name@, i as int));
            let node_type = build_node_type(node);
            node_types.insert(node.name.clone(), node_type);
        }
        i = i + 1;
    }
    proof {
        lemma_node_names(s, s.len() as int);
    }

    let mut i: usize = 0;
    while i < schema.declarations.len()
        invariant
            i <= schema.declarations@.len(),
            s == schema@,
            node_check == (|i: int| node_decl_check(s, i)),
            edge_check == (|i: int| edge_decl_check(s, i)),
            first_error(s.len(), node_check, 0) is None,
            first_error(s.len(), edge_check, 0) == first_error(s.len(), edge_check, i as int),
            node_types@ == node_types_of(s, s.len() as int),
            forall|name: Seq<char>|
                node_types@.contains_key(name) <==> #[trigger] node_declared(
                    s,
                    name,
                    s.len() as int,
                ),
            edge_types@ == edge_types_of(s, i as int),
            edge_name_index@ == edge_index_of(s, i as int),
        decreases schema.declarations@.len() - i,
    {
        assert(s[i as int] == schema.declarations@[i as int]@);
        proof {
            lemma_edge_names(s, i as int);
        }
        if let SchemaDecl::Edge(edge) = &schema.declarations[i] {
            if edge_types.contains_key(&edge.name) {
                assert(edge_declared(s, edge.name@, i as int));
                return Err(NanoError::Catalog(cat2("duplicate edge type: ", &edge.name)));
            }
            assert(!edge_declared(s, edge.name@, i as int));
            if !node_types.contains_key(&edge.from_type) {
                assert(!node_declared(s, edge.from_type@, s.len() as int));
                return Err(
                    NanoError::Catalog(
                        cat4(
                            "edge ",
                            &edge.name,
                            " references unknown source type: ",
                            &edge.from_type,
                        ),
                    ),
                );
            }
            assert(node_declared(s, edge.from_type@, s.len() as int));
            if !node_types.contains_key(&edge.to_type) {
                assert(!node_declared(s, edge.to_type@, s.len() as int));
                return Err(
                    NanoError::Catalog(
                        cat4(
                            "edge ",
                            &edge.name,
                            " references unknown target type: ",
                            &edge.to_type,
                        ),
                    ),
                );
            }
            assert(node_declared(s, edge.to_type@, s.len() as int));
            let edge_type = build_edge_type(edge);
            let lowercase_name = lowercase_first_char(&edge.name);
            edge_name_index.insert(lowercase_name, edge.name.clone());
            edge_types.insert(edge.name.clone(), edge_type);
        }
        i = i + 1;
    }
    Ok(Catalog { node_types, edge_types, edge_name_index })
}

// ---------------------------------------------------------------------------
// Laws

proof fn lemma_no_catalog_error(s: Seq<SchemaDeclModel>, i: int)
    requires
        catalog_error(s) is None,
        0 <= i < s.len(),
    ensures
        node_decl_check(s, i) is None,
        edge_decl_check(s, i) is None,
{
    let a = |i: int| node_decl_check(s, i);
    let b = |i: int| edge_decl_check(s, i);
    lemma_first_error(s.len(), a, 0);
    lemma_first_error(s.len(), b, 0);
    assert(a(i) is None);
    assert(b(i) is None);
}

proof fn lemma_node_types(s: Seq<SchemaDeclModel>, name: Seq<char>, n: int)
    requires
        0 <= n <= s.len(),
    ensures
        node_types_of(s, n).contains_key(name) <==> node_declared(s, name, n),
    decreases n,
{
    if n > 0 {
        lemma_node_types(s, name, n - 1);
        let last = s[n - 1];
        if node_declared(s, name, n) && !node_declared(s, name, n - 1) {
            let j = choose|j: int|
                0 <= j < n && (#[trigger] s[j] matches SchemaDeclModel::Node(d) && d.name == name);
            assert(j == n - 1);
        }
        if last matches SchemaDeclModel::Node(d) && d.name == name {
            assert(s[n - 1] is Node);
            assert(node_declared(s, name, n));
        }
    }
}

/// Every node type that a schema declares is in its catalog, as it was declared.
pub proof fn law_declared_nodes_are_in_the_catalog(s: Seq<SchemaDeclModel>, i: int, n: int)
    requires
        catalog_error(s) is None,
        0 <= i < n <= s.len(),
        s[i] is Node,
    ensures
        node_types_of(s, n).contains_key(s[i]->Node_0.name),
        node_types_of(s, n)[s[i]->Node_0.name] == node_type_of(s[i]->Node_0),
    decreases n,
{
    if i < n - 1 {
        law_declared_nodes_are_in_the_catalog(s, i, n - 1);
        if let SchemaDeclModel::Node(d) = s[n - 1] {
            lemma_no_catalog_error(s, n - 1);
            if d.name == s[i]->Node_0.name {
                assert(node_declared(s, d.name, n - 1));
            }
        }
    }
}

/// Every edge type that a schema declares is in its catalog, as it was declared.
pub proof fn law_declared_edges_are_in_the_catalog(s: Seq<SchemaDeclModel>, i: int, n: int)
    requires
        catalog_error(s) is None,
        0 <= i < n <= s.len(),
        s[i] is Edge,
    ensures
        edge_types_of(s, n).contains_key(s[i]->Edge_0.name),
        edge_types_of(s, n)[s[i]->Edge_0.name] == edge_type_of(s[i]->Edge_0),
    decreases n,
{
    if i < n - 1 {
        law_declared_edges_are_in_the_catalog(s, i, n - 1);
        if let SchemaDeclModel::Edge(d) = s[n - 1] {
            lemma_no_catalog_error(s, n - 1);
            if d.name == s[i]->Edge_0.name {
                assert(edge_declared(s, d.name, n - 1));
            }
        }
    }
}

/// Every edge type of a catalog joins node types of that catalog.
pub proof fn law_edges_join_declared_nodes(s: Seq<SchemaDeclModel>, i: int)
    requires
        catalog_error(s) is None,
        0 <= i < s.len(),
        s[i] is Edge,
    ensures
        catalog_of(s).node_types.contains_key(s[i]->Edge_0.from_type),
        catalog_of(s).node_types.contains_key(s[i]->Edge_0.to_type),
{
    lemma_no_catalog_error(s, i);
    lemma_node_types(s, s[i]->Edge_0.from_type, s.len() as int);
    lemma_node_types(s, s[i]->Edge_0.to_type, s.len() as int);
}

/// A declared edge type is found by its name.
pub proof fn law_edges_are_found_by_name(s: Seq<SchemaDeclModel>, i: int)
    requires
        catalog_error(s) is None,
        0 <= i < s.len(),
        s[i] is Edge,
    ensures
        edge_named(catalog_of(s), s[i]->Edge_0.name) == Some(edge_type_of(s[i]->Edge_0)),
{
    law_declared_edges_are_in_the_catalog(s, i, s.len() as int);
}

proof fn lemma_edge_index(s: Seq<SchemaDeclModel>, i: int, n: int)
    requires
        0 <= i < n <= s.len(),
        s[i] is Edge,
        forall|j: int|
            i < j < n ==> (#[trigger] s[j] matches SchemaDeclModel::Edge(d) ==> lowercase_first(
                d.name,
            ) != lowercase_first(s[i]->Edge_0.name)),
    ensures
        edge_index_of(s, n).contains_key(lowercase_first(s[i]->Edge_0.name)),
        edge_index_of(s, n)[lowercase_first(s[i]->Edge_0.name)] == s[i]->Edge_0.name,
    decreases n,
{
    if i < n - 1 {
        lemma_edge_index(s, i, n - 1);
        assert(s[n - 1] matches SchemaDeclModel::Edge(d) ==> lowercase_first(d.name)
            != lowercase_first(s[i]->Edge_0.name));
    }
}

proof fn lemma_edge_types(s: Seq<SchemaDeclModel>, name: Seq<char>, n: int)
    requires
        0 <= n <= s.len(),
    ensures
        edge_types_of(s, n).contains_key(name) <==> edge_declared(s, name, n),
    decreases n,
{
    if n > 0 {
        lemma_edge_types(s, name, n - 1);
        let last = s[n - 1];
        if edge_declared(s, name, n) && !edge_declared(s, name, n - 1) {
            let j = choose|j: int|
                0 <= j < n && (#[trigger] s[j] matches SchemaDeclModel::Edge(d) && d.name == name);
            assert(j == n - 1);
        }
        if last matches SchemaDeclModel::Edge(d) && d.name == name {
            assert(s[n - 1] is Edge);
            assert(edge_declared(s, name, n));
        }
    }
}

/// A declared edge type is found by its name with the first character in lower case too,
/// where no other edge type has that name and no later one the same name in lower case.
pub proof fn law_edges_are_found_in_lower_case(s: Seq<SchemaDeclModel>, i: int)
    requires
        catalog_error(s) is None,
        0 <= i < s.len(),
        s[i] is Edge,
        forall|j: int|
            0 <= j < s.len() && j != i ==> (#[trigger] s[j] matches SchemaDeclModel::Edge(d)
                ==> d.name != lowercase_first(s[i]->Edge_0.name)),
        forall|j: int|
            i < j < s.len() ==> (#[trigger] s[j] matches SchemaDeclModel::Edge(d)
                ==> lowercase_first(d.name) != lowercase_first(s[i]->Edge_0.name)),
    ensures
        edge_named(catalog_of(s), lowercase_first(s[i]->Edge_0.name)) == Some(
            edge_type_of(s[i]->Edge_0),
        ),
{
    let n = s.len() as int;
    let low = lowercase_first(s[i]->Edge_0.name);
    law_declared_edges_are_in_the_catalog(s, i, n);
    lemma_edge_index(s, i, n);
    lemma_edge_types(s, low, n);
    if edge_declared(s, low, n) {
        let j = choose|j: int|
            0 <= j < n && (#[trigger] s[j] matches SchemaDeclModel::Edge(d) && d.name == low);
        assert(j == i);
    }
}

} // verus!
