//! The syntax tree of a schema.

use crate::text::{opt_view, views};
use crate::types::{PropType, PropTypeModel};
use vstd::prelude::*;

verus! {

/// `@name` or `@name(value)`.
#[derive(Debug)]
pub struct Annotation {
    pub name: String,
    pub value: Option<String>,
}

/// The mathematical value of an `Annotation`.
pub struct AnnotationModel {
    pub name: Seq<char>,
    pub value: Option<Seq<char>>,
}

impl View for Annotation {
    type V = AnnotationModel;

    open spec fn view(&self) -> AnnotationModel {
        AnnotationModel { name: self.name@, value: opt_view(self.value) }
    }
}

/// A declared property.
#[derive(Debug)]
pub struct PropDecl {
    pub name: String,
    pub prop_type: PropType,
    pub annotations: Vec<Annotation>,
}

/// The mathematical value of a `PropDecl`.
pub struct PropDeclModel {
    pub name: Seq<char>,
    pub prop_type: PropTypeModel,
    pub annotations: Seq<AnnotationModel>,
}

impl View for PropDecl {
    type V = PropDeclModel;

    open spec fn view(&self) -> PropDeclModel {
        PropDeclModel {
            name: self.name@,
            prop_type: self.prop_type@,
            annotations: views(self.annotations@),
        }
    }
}

/// A declared node type.
#[derive(Debug)]
pub struct NodeDecl {
    pub name: String,
    pub annotations: Vec<Annotation>,
    pub parent: Option<String>,
    pub properties: Vec<PropDecl>,
}

/// The mathematical value of a `NodeDecl`.
pub struct NodeDeclModel {
    pub name: Seq<char>,
    pub annotations: Seq<AnnotationModel>,
    pub parent: Option<Seq<char>>,
    pub properties: Seq<PropDeclModel>,
}

impl View for NodeDecl {
    type V = NodeDeclModel;

    open spec fn view(&self) -> NodeDeclModel {
        NodeDeclModel {
            name: self.name@,
            annotations: views(self.annotations@),
            parent: opt_view(self.parent),
            properties: views(self.properties@),
        }
    }
}

/// A declared edge type.
#[derive(Debug)]
pub struct EdgeDecl {
    pub name: String,
    pub from_type: String,
    pub to_type: String,
    pub annotations: Vec<Annotation>,
    pub properties: Vec<PropDecl>,
}

/// The mathematical value of an `EdgeDecl`.
pub struct EdgeDeclModel {
    pub name: Seq<char>,
    pub from_type: Seq<char>,
    pub to_type: Seq<char>,
    pub annotations: Seq<AnnotationModel>,
    pub properties: Seq<PropDeclModel>,
}

impl View for EdgeDecl {
    type V = EdgeDeclModel;

    open spec fn view(&self) -> EdgeDeclModel {
        EdgeDeclModel {
            name: self.name@,
            from_type: self.from_type@,
            to_type: self.to_type@,
            annotations: views(self.annotations@),
            properties: views(self.properties@),
        }
    }
}

/// A declaration.
#[derive(Debug)]
pub enum SchemaDecl {
    Node(NodeDecl),
    Edge(EdgeDecl),
}

/// The mathematical value of a `SchemaDecl`.
pub enum SchemaDeclModel {
    Node(NodeDeclModel),
    Edge(EdgeDeclModel),
}

impl View for SchemaDecl {
    type V = SchemaDeclModel;

    open spec fn view(&self) -> SchemaDeclModel {
        match *self {
            SchemaDecl::Node(n) => SchemaDeclModel::Node(n@),
            SchemaDecl::Edge(e) => SchemaDeclModel::Edge(e@),
        }
    }
}

/// A whole schema.
#[derive(Debug)]
pub struct SchemaFile {
    pub declarations: Vec<SchemaDecl>,
}

impl View for SchemaFile {
    type V = Seq<SchemaDeclModel>;

    open spec fn view(&self) -> Seq<SchemaDeclModel> {
        views(self.declarations@)
    }
}

} // verus!
