//! The columnar layout of property types: the fields of an Arrow schema as plain values.

use crate::text::views;
use crate::types::{PropType, PropTypeModel, ScalarType};
use vstd::prelude::*;

verus! {

/// The type of a column.
#[derive(Debug, Clone, Copy, PartialEq, Eq, Structural)]
pub enum ArrowType {
    Utf8,
    Boolean,
    Int32,
    Int64,
    UInt32,
    UInt64,
    Float32,
    Float64,
    Date32,
    Date64,
    /// Lists of `Float32` of a fixed length.
    FixedSizeList(u32),
    /// Lists of strings, numbers or dates.
    List(ArrowItem),
}

/// The type of the items of a variable-length list.
#[derive(Debug, Clone, Copy, PartialEq, Eq, Structural)]
pub enum ArrowItem {
    Utf8,
    Boolean,
    Int32,
    Int64,
    UInt32,
    UInt64,
    Float32,
    Float64,
    Date32,
    Date64,
    FixedSizeList(u32),
}

/// The column type of a scalar type.
pub open spec fn scalar_column(s: ScalarType) -> ArrowType {
    match s {
        ScalarType::String => ArrowType::Utf8,
        ScalarType::Bool => ArrowType::Boolean,
        ScalarType::I32 => ArrowType::Int32,
        ScalarType::I64 => ArrowType::Int64,
        ScalarType::U32 => ArrowType::UInt32,
        ScalarType::U64 => ArrowType::UInt64,
        ScalarType::F32 => ArrowType::Float32,
        ScalarType::F64 => ArrowType::Float64,
        ScalarType::Date => ArrowType::Date32,
        ScalarType::DateTime => ArrowType::Date64,
        ScalarType::Vector(dim) => ArrowType::FixedSizeList(dim),
    }
}

/// The item type of a list of a scalar type.
pub open spec fn scalar_item(s: ScalarType) -> ArrowItem {
    match s {
        ScalarType::String => ArrowItem::Utf8,
        ScalarType::Bool => ArrowItem::Boolean,
        ScalarType::I32 => ArrowItem::Int32,
        ScalarType::I64 => ArrowItem::Int64,
        ScalarType::U32 => ArrowItem::UInt32,
        ScalarType::U64 => ArrowItem::UInt64,
        ScalarType::F32 => ArrowItem::Float32,
        ScalarType::F64 => ArrowItem::Float64,
        ScalarType::Date => ArrowItem::Date32,
        ScalarType::DateTime => ArrowItem::Date64,
        ScalarType::Vector(dim) => ArrowItem::FixedSizeList(dim),
    }
}

/// The column type of a property type.
pub open spec fn column_type(t: PropTypeModel) -> ArrowType {
    if t.list {
        ArrowType::List(scalar_item(t.scalar))
    } else {
        scalar_column(t.scalar)
    }
}

impl PropType {
    /// The column type that holds values of this type.
    pub fn to_arrow(&self) -> (r: ArrowType)
        ensures
            r == column_type(self@),
    {
        if self.list {
            ArrowType::List(
                match self.scalar {
                    ScalarType::String => ArrowItem::Utf8,
                    ScalarType::Bool => ArrowItem::Boolean,
                    ScalarType::I32 => ArrowItem::Int32,
                    ScalarType::I64 => ArrowItem::Int64,
                    ScalarType::U32 => ArrowItem::UInt32,
                    ScalarType::U64 => ArrowItem::UInt64,
                    ScalarType::F32 => ArrowItem::Float32,
                    ScalarType::F64 => ArrowItem::Float64,
                    ScalarType::Date => ArrowItem::Date32,
                    ScalarType::DateTime => ArrowItem::Date64,
                    ScalarType::Vector(dim) => ArrowItem::FixedSizeList(dim),
                },
            )
        } else {
            match self.scalar {
                ScalarType::String => ArrowType::Utf8,
                ScalarType::Bool => ArrowType::Boolean,
                ScalarType::I32 => ArrowType::Int32,
                ScalarType::I64 => ArrowType::Int64,
                ScalarType::U32 => ArrowType::UInt32,
                ScalarType::U64 => ArrowType::UInt64,
                ScalarType::F32 => ArrowType::Float32,
                ScalarType::F64 => ArrowType::Float64,
                ScalarType::Date => ArrowType::Date32,
                ScalarType::DateTime => ArrowType::Date64,
                ScalarType::Vector(dim) => ArrowType::FixedSizeList(dim),
            }
        }
    }
}

/// A column of a table.
#[derive(Debug)]
pub struct ArrowField {
    pub name: String,
    pub data_type: ArrowType,
    pub nullable: bool,
}

/// The mathematical value of an `ArrowField`.
pub struct ArrowFieldModel {
    pub name: Seq<char>,
    pub data_type: ArrowType,
    pub nullable: bool,
}

impl View for ArrowField {
    type V = ArrowFieldModel;

    open spec fn view(&self) -> ArrowFieldModel {
        ArrowFieldModel { name: self.name@, data_type: self.data_type, nullable: self.nullable }
    }
}

impl ArrowField {
    pub fn new(name: &str, data_type: ArrowType, nullable: bool) -> (r: ArrowField)
        ensures
            r@ == (ArrowFieldModel { name: name@, data_type, nullable }),
    {
        ArrowField { name: name.to_owned(), data_type, nullable }
    }
}

/// The columns of a table, in order.
#[derive(Debug)]
pub struct ArrowSchema {
    pub fields: Vec<ArrowField>,
}

impl View for ArrowSchema {
    type V = Seq<ArrowFieldModel>;

    open spec fn view(&self) -> Seq<ArrowFieldModel> {
        views(self.fields@)
    }
}

impl ArrowSchema {
    pub fn fields(&self) -> (r: &Vec<ArrowField>)
        ensures
            views(r@) == self@,
    {
        &self.fields
    }
}

} // verus!
