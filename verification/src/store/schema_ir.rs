//! The compiled schema: types and properties with their stable identities.

use crate::text::{opt_view, same, views};
use vstd::prelude::*;

verus! {

/// A property of a compiled type.
#[derive(Debug)]
pub struct PropDef {
    pub name: String,
    pub prop_id: u32,
    pub scalar_type: String,
    pub list: bool,
    pub nullable: bool,
    pub enum_values: Vec<String>,
    pub key: bool,
    pub unique: bool,
    pub index: bool,
    pub embed_source: Option<String>,
    pub media_mime_prop: Option<String>,
    pub description: Option<String>,
}

/// The mathematical value of a `PropDef`.
pub struct PropDefModel {
    pub name: Seq<char>,
    pub prop_id: u32,
    pub scalar_type: Seq<char>,
    pub list: bool,
    pub nullable: bool,
    pub enum_values: Seq<Seq<char>>,
    pub key: bool,
    pub unique: bool,
    pub index: bool,
    pub embed_source: Option<Seq<char>>,
    pub media_mime_prop: Option<Seq<char>>,
    pub description: Option<Seq<char>>,
}

impl View for PropDef {
    type V = PropDefModel;

    open spec fn view(&self) -> PropDefModel {
        PropDefModel {
            name: self.name@,
            prop_id: self.prop_id,
            scalar_type: self.scalar_type@,
            list: self.list,
            nullable: self.nullable,
            enum_values: views(self.enum_values@),
            key: self.key,
            unique: self.unique,
            index: self.index,
            embed_source: opt_view(self.embed_source),
            media_mime_prop: opt_view(self.media_mime_prop),
            description: opt_view(self.description),
        }
    }
}

/// A compiled node type.
#[derive(Debug)]
pub struct NodeTypeDef {
    pub name: String,
    pub type_id: u32,
    pub description: Option<String>,
    pub instruction: Option<String>,
    pub properties: Vec<PropDef>,
}

/// The mathematical value of a `NodeTypeDef`.
pub struct NodeTypeDefModel {
    pub name: Seq<char>,
    pub type_id: u32,
    pub description: Option<Seq<char>>,
    pub instruction: Option<Seq<char>>,
    pub properties: Seq<PropDefModel>,
}

impl View for NodeTypeDef {
    type V = NodeTypeDefModel;

    open spec fn view(&self) -> NodeTypeDefModel {
        NodeTypeDefModel {
            name: self.name@,
            type_id: self.type_id,
            description: opt_view(self.description),
            instruction: opt_view(self.instruction),
            properties: views(self.properties@),
        }
    }
}

/// A compiled edge type.
#[derive(Debug)]
pub struct EdgeTypeDef {
    pub name: String,
    pub type_id: u32,
    pub src_type: String,
    pub dst_type: String,
    pub description: Option<String>,
    pub instruction: Option<String>,
    pub properties: Vec<PropDef>,
}

/// The mathematical value of an `EdgeTypeDef`.
pub struct EdgeTypeDefModel {
    pub name: Seq<char>,
    pub type_id: u32,
    pub src_type: Seq<char>,
    pub dst_type: Seq<char>,
    pub description: Option<Seq<char>>,
    pub instruction: Option<Seq<char>>,
    pub properties: Seq<PropDefModel>,
}

impl View for EdgeTypeDef {
    type V = EdgeTypeDefModel;

    open spec fn view(&self) -> EdgeTypeDefModel {
        EdgeTypeDefModel {
            name: self.name@,
            type_id: self.type_id,
            src_type: self.src_type@,
            dst_type: self.dst_type@,
            description: opt_view(self.description),
            instruction: opt_view(self.instruction),
            properties: views(self.properties@),
        }
    }
}

/// A compiled schema.
#[derive(Debug)]
pub struct SchemaIr {
    pub ir_version: u32,
    pub nodes: Vec<NodeTypeDef>,
    pub edges: Vec<EdgeTypeDef>,
}

/// The mathematical value of a `SchemaIr`.
pub struct SchemaIrModel {
    pub ir_version: u32,
    pub nodes: Seq<NodeTypeDefModel>,
    pub edges: Seq<EdgeTypeDefModel>,
}

impl View for SchemaIr {
    type V = SchemaIrModel;

    open spec fn view(&self) -> SchemaIrModel {
        SchemaIrModel {
            ir_version: self.ir_version,
            nodes: views(self.nodes@),
            edges: views(self.edges@),
        }
    }
}

/// The position from `i` on of the node type of a name.
pub open spec fn node_position(nodes: Seq<NodeTypeDefModel>, name: Seq<char>, i: int) -> Option<int>
    decreases nodes.len() - i,
{
    if i < 0 || i >= nodes.len() {
        None
    } else if nodes[i].name == name {
        Some(i)
    } else {
        node_position(nodes, name, i + 1)
    }
}

/// The node type of a name; of two that share it the first.
pub open spec fn node_of(schema: SchemaIrModel, name: Seq<char>) -> Option<NodeTypeDefModel> {
    match node_position(schema.nodes, name, 0) {
        Some(i) => Some(schema.nodes[i]),
        None => None,
    }
}

/// The position of the first key among the properties from `i` on.
pub open spec fn key_from(props: Seq<PropDefModel>, i: int) -> Option<int>
    decreases props.len() - i,
{
    if i < 0 || i >= props.len() {
        None
    } else if props[i].key {
        Some(i)
    } else {
        key_from(props, i + 1)
    }
}

/// The name of the key property: the first property that is a key.
pub open spec fn key_prop_of(n: NodeTypeDefModel) -> Option<Seq<char>> {
    match key_from(n.properties, 0) {
        Some(i) => Some(n.properties[i].name),
        None => None,
    }
}

/// A key that is found is among the properties.
pub proof fn lemma_key_from(props: Seq<PropDefModel>, i: int)
    ensures
        key_from(props, i) matches Some(k) ==> i <= k < props.len() && props[k].key,
        key_from(props, i) is None && 0 <= i ==> forall|k: int|
            i <= k < props.len() ==> !(#[trigger] props[k]).key,
    decreases props.len() - i,
{
    if i < 0 || i >= props.len() {
    } else if props[i].key {
    } else {
        lemma_key_from(props, i + 1);
    }
}

impl SchemaIr {
    /// The node type of a name.
    pub fn node_named(&self, name: &str) -> (r: Option<&NodeTypeDef>)
        ensures
            match r {
                Some(node) => node_of(self@, name@) == Some(node@),
                None => node_of(self@, name@) is None,
            },
    {
        let mut i: usize = 0;
        while i < self.nodes.len()
            invariant
                i <= self.nodes@.len(),
                node_position(self@.nodes, name@, 0) == node_position(
                    self@.nodes,
                    name@,
                    i as int,
                ),
            decreases self.nodes@.len() - i,
        {
            assert(self@.nodes[i as int] == self.nodes@[i as int]@);
            if same(&self.nodes[i].name, name) {
                return Some(&self.nodes[i]);
            }
            i = i + 1;
        }
        None
    }
}

impl NodeTypeDef {
    /// The name of the key property.
    pub fn key_prop(&self) -> (r: Option<&String>)
        ensures
            match r {
                Some(name) => key_prop_of(self@) == Some(name@),
                None => key_prop_of(self@) is None,
            },
    {
        let mut i: usize = 0;
        while i < self.properties.len()
            invariant
                i <= self.properties@.len(),
                key_from(self@.properties, 0) == key_from(self@.properties, i as int),
            decreases self.properties@.len() - i,
        {
            assert(self@.properties[i as int] == self.properties@[i as int]@);
            if self.properties[i].key {
                return Some(&self.properties[i].name);
            }
            i = i + 1;
        }
        None
    }
}

} // verus!
