//! Property types.

use crate::sort::{stable_sort, stably_sorted};
use crate::text::{chars_of, copy_strings, parse_int, read_int, same, string_of, views};
use vstd::prelude::*;

verus! {

/// The type of one property value, or of one element of a list.
#[derive(Debug, Clone, Copy, PartialEq, Eq, Structural)]
pub enum ScalarType {
    String,
    Bool,
    I32,
    I64,
    U32,
    U64,
    F32,
    F64,
    Date,
    DateTime,
    Vector(u32),
}

/// The dimension in `Vector(dim)`: a positive number that a signed 32 bit length can hold.
pub open spec fn vector_dim(name: Seq<char>) -> Option<u32> {
    let prefix = "Vector("@;
    if prefix.len() < name.len() && name.take(prefix.len() as int) == prefix && name.last() == ')' {
        match read_int(name.subrange(prefix.len() as int, name.len() - 1), 0, u32::MAX as int) {
            Ok(dim) => if 0 < dim <= i32::MAX {
                Some(dim as u32)
            } else {
                None
            },
            Err(_) => None,
        }
    } else {
        None
    }
}

/// The scalar type that a type name stands for.
pub open spec fn scalar_named(name: Seq<char>) -> Option<ScalarType> {
    if name == "String"@ {
        Some(ScalarType::String)
    } else if name == "Bool"@ {
        Some(ScalarType::Bool)
    } else if name == "I32"@ {
        Some(ScalarType::I32)
    } else if name == "I64"@ {
        Some(ScalarType::I64)
    } else if name == "U32"@ {
        Some(ScalarType::U32)
    } else if name == "U64"@ {
        Some(ScalarType::U64)
    } else if name == "F32"@ {
        Some(ScalarType::F32)
    } else if name == "F64"@ {
        Some(ScalarType::F64)
    } else if name == "Date"@ {
        Some(ScalarType::Date)
    } else if name == "DateTime"@ {
        Some(ScalarType::DateTime)
    } else {
        match vector_dim(name) {
            Some(dim) => Some(ScalarType::Vector(dim)),
            None => None,
        }
    }
}

/// The dimension in `Vector(dim)`.
pub fn parse_vector_dim(name: &str) -> (r: Option<u32>)
    ensures
        r == vector_dim(name@),
{
    proof {
        reveal_strlit("Vector(");
    }
    let v = chars_of(name);
    if v.len() <= 7 || v[v.len() - 1] != ')' {
        return None;
    }
    let head = string_of(&v, 0, 7);
    assert(head@ =~= name@.take(7));
    if !same(&head, "Vector(") {
        return None;
    }
    let digits = string_of(&v, 7, v.len() - 1);
    match parse_int(&digits, 0, u32::MAX as i128) {
        Ok(dim) => if 0 < dim && dim <= i32::MAX as i128 {
            Some(dim as u32)
        } else {
            None
        },
        Err(_) => None,
    }
}

impl ScalarType {
    /// The scalar type that a type name stands for.
    pub fn from_str_name(name: &str) -> (r: Option<ScalarType>)
        ensures
            r == scalar_named(name@),
    {
        if same(name, "String") {
            Some(ScalarType::String)
        } else if same(name, "Bool") {
            Some(ScalarType::Bool)
        } else if same(name, "I32") {
            Some(ScalarType::I32)
        } else if same(name, "I64") {
            Some(ScalarType::I64)
        } else if same(name, "U32") {
            Some(ScalarType::U32)
        } else if same(name, "U64") {
            Some(ScalarType::U64)
        } else if same(name, "F32") {
            Some(ScalarType::F32)
        } else if same(name, "F64") {
            Some(ScalarType::F64)
        } else if same(name, "Date") {
            Some(ScalarType::Date)
        } else if same(name, "DateTime") {
            Some(ScalarType::DateTime)
        } else {
            match parse_vector_dim(name) {
                Some(dim) => Some(ScalarType::Vector(dim)),
                None => None,
            }
        }
    }
}

/// The type of a property.
#[derive(Debug)]
pub struct PropType {
    pub scalar: ScalarType,
    pub nullable: bool,
    pub list: bool,
    /// The values of an enumeration, in ascending order.
    pub enum_values: Option<Vec<String>>,
}

/// The mathematical value of a `PropType`.
pub struct PropTypeModel {
    pub scalar: ScalarType,
    pub nullable: bool,
    pub list: bool,
    pub enum_values: Option<Seq<Seq<char>>>,
}

impl View for PropType {
    type V = PropTypeModel;

    open spec fn view(&self) -> PropTypeModel {
        PropTypeModel {
            scalar: self.scalar,
            nullable: self.nullable,
            list: self.list,
            enum_values: match self.enum_values {
                Some(v) => Some(views(v@)),
                None => None,
            },
        }
    }
}

/// The type whose values are those of a scalar type.
pub open spec fn scalar_type(scalar: ScalarType, nullable: bool) -> PropTypeModel {
    PropTypeModel { scalar, nullable, list: false, enum_values: None }
}

/// The type of lists of a scalar type.
pub open spec fn list_type(scalar: ScalarType, nullable: bool) -> PropTypeModel {
    PropTypeModel { scalar, nullable, list: true, enum_values: None }
}

/// The type of the strings among `values`, which it holds in ascending order.
pub open spec fn enum_type(values: Seq<Seq<char>>, nullable: bool) -> PropTypeModel {
    PropTypeModel {
        scalar: ScalarType::String,
        nullable,
        list: false,
        enum_values: Some(stably_sorted::<String>(values)),
    }
}

impl PropType {
    pub fn scalar(scalar: ScalarType, nullable: bool) -> (r: PropType)
        ensures
            r@ == scalar_type(scalar, nullable),
    {
        PropType { scalar, nullable, list: false, enum_values: None }
    }

    pub fn list_of(scalar: ScalarType, nullable: bool) -> (r: PropType)
        ensures
            r@ == list_type(scalar, nullable),
    {
        PropType { scalar, nullable, list: true, enum_values: None }
    }

    pub fn enum_type(values: Vec<String>, nullable: bool) -> (r: PropType)
        ensures
            r@ == enum_type(views(values@), nullable),
    {
        let sorted = stable_sort(values);
        PropType { scalar: ScalarType::String, nullable, list: false, enum_values: Some(sorted) }
    }

    pub fn is_enum(&self) -> (r: bool)
        ensures
            r == (self@.enum_values is Some),
    {
        self.enum_values.is_some()
    }

    /// Another value of the same type.
    pub fn copy(&self) -> (r: PropType)
        ensures
            r@ == self@,
    {
        let enum_values = match &self.enum_values {
            Some(v) => Some(copy_strings(v)),
            None => None,
        };
        PropType { scalar: self.scalar, nullable: self.nullable, list: self.list, enum_values }
    }
}

} // verus!
