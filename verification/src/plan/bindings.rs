//! The columns that hold the properties of a query's variables.
//!
//! A variable is either one column of structs or one column `variable::property` for each
//! of its properties.

use crate::error::{ErrorModel, NanoError};
use crate::strings::{after_prefix, find_from, find_text, lemma_find, strip_prefix};
use crate::text::{cat2, cat3, cat4, chars_of, same, string_of, views};
use vstd::prelude::*;

verus! {

/// The name of the column of a variable's property.
pub open spec fn flat_name(variable: Seq<char>, property: Seq<char>) -> Seq<char> {
    variable + "::"@ + property
}

/// The variable and the property that a column name stands for: what is before and behind
/// its first `::`.
pub open spec fn split_name(name: Seq<char>) -> Option<(Seq<char>, Seq<char>)> {
    match find_from(name, "::"@, 0) {
        Some(k) => Some((name.take(k), name.skip(k + 2))),
        None => None,
    }
}

/// The name of the column of a variable's property.
pub fn flat_binding_col(variable: &str, property: &str) -> (r: String)
    ensures
        r@ == flat_name(variable@, property@),
{
    cat3(variable, "::", property)
}

/// The variable and the property that a column name stands for.
pub fn split_flat_binding_col(name: &str) -> (r: Option<(String, String)>)
    ensures
        match r {
            Some((v, p)) => split_name(name@) == Some((v@, p@)),
            None => split_name(name@) is None,
        },
{
    proof {
        reveal_strlit("::");
    }
    let v = chars_of(name);
    let n: usize = v.len();
    match find_text(&v, "::") {
        Some(k) => {
            let variable = string_of(&v, 0, k);
            let property = string_of(&v, k + 2, n);
            assert(variable@ =~= name@.take(k as int));
            assert(property@ =~= name@.skip(k + 2));
            Some((variable, property))
        },
        None => None,
    }
}

/// A column name made of a variable and a property is split into them again, where the
/// variable neither holds `::` nor ends with `:`.
pub proof fn law_flat_name_splits(variable: Seq<char>, property: Seq<char>)
    requires
        forall|k: int|
            0 <= k < variable.len() && #[trigger] variable[k] == ':' ==> k + 1 < variable.len()
                && variable[k + 1] != ':',
    ensures
        split_name(flat_name(variable, property)) == Some((variable, property)),
{
    reveal_strlit("::");
    let name = flat_name(variable, property);
    let n = variable.len() as int;
    lemma_find(name, "::"@, 0);
    assert(name.subrange(n, n + 2) =~= "::"@);
    let k = find_from(name, "::"@, 0)->0;
    if k < n {
        assert(name.subrange(k, k + 2)[0] == ':');
        assert(name.subrange(k, k + 2)[1] == ':');
        assert(variable[k] == ':');
        assert(name[k + 1] == variable[k + 1]);
    }
    assert(k == n);
    assert(name.take(n) =~= variable);
    assert(name.skip(n + 2) =~= property);
}

/// A column: its name, and the names of its fields where it holds structs.
#[derive(Debug)]
pub struct BindingColumn {
    pub name: String,
    pub fields: Option<Vec<String>>,
}

pub struct BindingColumnModel {
    pub name: Seq<char>,
    pub fields: Option<Seq<Seq<char>>>,
}

impl View for BindingColumn {
    type V = BindingColumnModel;

    open spec fn view(&self) -> BindingColumnModel {
        BindingColumnModel {
            name: self.name@,
            fields: match self.fields {
                Some(f) => Some(views(f@)),
                None => None,
            },
        }
    }
}

/// The first column of a given name, from `i` on.
pub open spec fn column_index(cols: Seq<BindingColumnModel>, name: Seq<char>, i: int) -> Option<int>
    decreases cols.len() - i,
{
    if i < 0 || i >= cols.len() {
        None
    } else if cols[i].name == name {
        Some(i)
    } else {
        column_index(cols, name, i + 1)
    }
}

/// The first of some names that is the given one, from `i` on.
pub open spec fn field_index(names: Seq<Seq<char>>, name: Seq<char>, i: int) -> Option<int>
    decreases names.len() - i,
{
    if i < 0 || i >= names.len() {
        None
    } else if names[i] == name {
        Some(i)
    } else {
        field_index(names, name, i + 1)
    }
}

/// Of the first `n` columns those of a variable, each with the property it holds.
pub open spec fn variable_columns(cols: Seq<BindingColumnModel>, variable: Seq<char>, n: int) -> Seq<
    (Seq<char>, usize),
>
    decreases n,
{
    if n <= 0 {
        Seq::empty()
    } else {
        let before = variable_columns(cols, variable, n - 1);
        match after_prefix(cols[n - 1].name, variable + "::"@) {
            Some(property) => before.push((property, (n - 1) as usize)),
            None => before,
        }
    }
}

/// Where a property is found.
#[derive(Debug, Clone, Copy, PartialEq, Eq, Structural)]
pub enum PropertySource {
    Column(usize),
    StructField { column: usize, field: usize },
}

/// Where the property of a variable is found, or the message that it is not.
pub open spec fn property_source(
    cols: Seq<BindingColumnModel>,
    variable: Seq<char>,
    property: Seq<char>,
) -> Result<PropertySource, Seq<char>> {
    let flat = flat_name(variable, property);
    match column_index(cols, flat, 0) {
        Some(i) => Ok(PropertySource::Column(i as usize)),
        None => match column_index(cols, variable, 0) {
            None => Err("column "@ + flat + " not found"@),
            Some(i) => match cols[i].fields {
                None => Err("column "@ + variable + " is not a struct"@),
                Some(fields) => match field_index(fields, property, 0) {
                    None => Err("struct "@ + variable + " has no field "@ + property),
                    Some(k) => Ok(
                        PropertySource::StructField { column: i as usize, field: k as usize },
                    ),
                },
            },
        },
    }
}

/// Where a whole variable is found.
#[derive(Debug)]
pub enum VariableSource {
    Column(usize),
    /// A struct made of these columns, each under the name of its property.
    Columns(Vec<(String, usize)>),
}

pub enum VariableSourceModel {
    Column(usize),
    Columns(Seq<(Seq<char>, usize)>),
}

/// Named columns as mathematical values.
pub open spec fn named_view(v: Seq<(String, usize)>) -> Seq<(Seq<char>, usize)> {
    Seq::new(v.len(), |i: int| (v[i].0@, v[i].1))
}

impl View for VariableSource {
    type V = VariableSourceModel;

    open spec fn view(&self) -> VariableSourceModel {
        match *self {
            VariableSource::Column(i) => VariableSourceModel::Column(i),
            VariableSource::Columns(v) => VariableSourceModel::Columns(named_view(v@)),
        }
    }
}

/// Where a variable is found, or the message that it is not.
pub open spec fn variable_source(cols: Seq<BindingColumnModel>, variable: Seq<char>) -> Result<
    VariableSourceModel,
    Seq<char>,
> {
    match column_index(cols, variable, 0) {
        Some(i) => Ok(VariableSourceModel::Column(i as usize)),
        None => {
            let parts = variable_columns(cols, variable, cols.len() as int);
            if parts.len() == 0 {
                Err("variable "@ + variable + " not found"@)
            } else {
                Ok(VariableSourceModel::Columns(parts))
            }
        },
    }
}

fn find_column(cols: &Vec<BindingColumn>, name: &str) -> (r: Option<usize>)
    ensures
        match r {
            Some(i) => column_index(views(cols@), name@, 0) == Some(i as int) && i < cols@.len(),
            None => column_index(views(cols@), name@, 0) is None,
        },
{
    let mut i: usize = 0;
    while i < cols.len()
        invariant
            i <= cols@.len(),
            column_index(views(cols@), name@, 0) == column_index(views(cols@), name@, i as int),
        decreases cols@.len() - i,
    {
        assert(views(cols@)[i as int] == cols@[i as int]@);
        if same(&cols[i].name, name) {
            return Some(i);
        }
        i = i + 1;
    }
    None
}

fn find_field(names: &Vec<String>, name: &str) -> (r: Option<usize>)
    ensures
        match r {
            Some(i) => field_index(views(names@), name@, 0) == Some(i as int) && i < names@.len(),
            None => field_index(views(names@), name@, 0) is None,
        },
{
    let mut i: usize = 0;
    while i < names.len()
        invariant
            i <= names@.len(),
            field_index(views(names@), name@, 0) == field_index(views(names@), name@, i as int),
        decreases names@.len() - i,
    {
        assert(views(names@)[i as int] == names@[i as int]@);
        if same(&names[i], name) {
            return Some(i);
        }
        i = i + 1;
    }
    None
}

/// The columns of a variable, each with the property it holds.
pub fn binding_field_columns(cols: &Vec<BindingColumn>, variable: &str) -> (r: Vec<(String, usize)>)
    ensures
        named_view(r@) == variable_columns(views(cols@), variable@, cols@.len() as int),
{
    let prefix = cat2(variable, "::");
    let mut out: Vec<(String, usize)> = Vec::new();
    assert(named_view(out@) =~= Seq::<(Seq<char>, usize)>::empty());
    let mut i: usize = 0;
    while i < cols.len()
        invariant
            i <= cols@.len(),
            prefix@ == variable@ + "::"@,
            named_view(out@) == variable_columns(views(cols@), variable@, i as int),
        decreases cols@.len() - i,
    {
        assert(views(cols@)[i as int] == cols@[i as int]@);
        if let Some(property) = strip_prefix(&cols[i].name, &prefix) {
            let x = (property, i);
            proof {
                assert(named_view(out@.push(x)) =~= named_view(out@).push((property@, i)));
            }
            out.push(x);
        }
        i = i + 1;
    }
    out
}

/// Where the property of a variable is found.
pub fn binding_property_array(cols: &Vec<BindingColumn>, variable: &str, property: &str) -> (r: Result<
    PropertySource,
    NanoError,
>)
    ensures
        match r {
            Ok(s) => property_source(views(cols@), variable@, property@) == Ok::<
                PropertySource,
                Seq<char>,
            >(s),
            Err(e) => property_source(views(cols@), variable@, property@) matches Err(m) && e@
                == ErrorModel::Execution(m),
        },
{
    let flat = flat_binding_col(variable, property);
    if let Some(i) = find_column(cols, &flat) {
        return Ok(PropertySource::Column(i));
    }
    if let Some(i) = find_column(cols, variable) {
        assert(views(cols@)[i as int] == cols@[i as int]@);
        return match &cols[i].fields {
            None => Err(NanoError::Execution(cat3("column ", variable, " is not a struct"))),
            Some(fields) => match find_field(fields, property) {
                Some(k) => Ok(PropertySource::StructField { column: i, field: k }),
                None => Err(
                    NanoError::Execution(cat4("struct ", variable, " has no field ", property)),
                ),
            },
        };
    }
    Err(NanoError::Execution(cat3("column ", &flat, " not found")))
}

/// Whether a result is the place, or the refusal the one, that a spec gives.
pub open spec fn finds_variable(
    r: Result<VariableSource, NanoError>,
    m: Result<VariableSourceModel, Seq<char>>,
) -> bool {
    match r {
        Ok(s) => m == Ok::<VariableSourceModel, Seq<char>>(s@),
        Err(e) => m matches Err(text) && e@ == ErrorModel::Execution(text),
    }
}

/// Where a variable is found, for its values.
pub fn binding_struct_array(cols: &Vec<BindingColumn>, variable: &str) -> (r: Result<
    VariableSource,
    NanoError,
>)
    ensures
        finds_variable(r, variable_source(views(cols@), variable@)),
{
    if let Some(i) = find_column(cols, variable) {
        return Ok(VariableSource::Column(i));
    }
    let parts = binding_field_columns(cols, variable);
    assert(named_view(parts@).len() == parts@.len());
    if parts.len() == 0 {
        return Err(NanoError::Execution(cat3("variable ", variable, " not found")));
    }
    Ok(VariableSource::Columns(parts))
}

/// Where a variable is found, for its type.
pub fn binding_data_type(cols: &Vec<BindingColumn>, variable: &str) -> (r: Result<
    VariableSource,
    NanoError,
>)
    ensures
        finds_variable(r, variable_source(views(cols@), variable@)),
{
    binding_struct_array(cols, variable)
}

} // verus!
