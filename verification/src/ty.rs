//! Type descriptors of variables and values.

use vstd::prelude::*;

verus! {

/// The semantic type of a variable or a value.
#[derive(Clone, Copy, Debug, PartialEq, Eq, Structural)]
pub enum Type {
    Int,
    Float,
    Range,
    Bool,
    String,
    Block,
    CellPath,
    Duration,
    Date,
    Filesize,
    List,
    Number,
    Nothing,
    Record,
    Table,
    ValueStream,
    Unknown,
    Error,
    Binary,
}

impl Type {
    /// The name under which the type is shown.
    pub open spec fn spec_name(self) -> Seq<char> {
        match self {
            Type::Int => "int"@,
            Type::Float => "float"@,
            Type::Range => "range"@,
            Type::Bool => "bool"@,
            Type::String => "string"@,
            Type::Block => "block"@,
            Type::CellPath => "cell path"@,
            Type::Duration => "duration"@,
            Type::Date => "date"@,
            Type::Filesize => "filesize"@,
            Type::List => "list"@,
            Type::Number => "number"@,
            Type::Nothing => "nothing"@,
            Type::Record => "record"@,
            Type::Table => "table"@,
            Type::ValueStream => "value stream"@,
            Type::Unknown => "unknown"@,
            Type::Error => "error"@,
            Type::Binary => "binary"@,
        }
    }

    /// The name under which the type is shown.
    pub fn name(&self) -> (name: &'static str)
        ensures
            name@ == self.spec_name(),
    {
        match self {
            Type::Int => "int",
            Type::Float => "float",
            Type::Range => "range",
            Type::Bool => "bool",
            Type::String => "string",
            Type::Block => "block",
            Type::CellPath => "cell path",
            Type::Duration => "duration",
            Type::Date => "date",
            Type::Filesize => "filesize",
            Type::List => "list",
            Type::Number => "number",
            Type::Nothing => "nothing",
            Type::Record => "record",
            Type::Table => "table",
            Type::ValueStream => "value stream",
            Type::Unknown => "unknown",
            Type::Error => "error",
            Type::Binary => "binary",
        }
    }
}

/// The shape that the parser expects of an argument.
#[derive(Clone, Copy, Debug, PartialEq, Eq, Structural)]
pub enum SyntaxShape {
    Any,
    Int,
    Number,
    String,
    Filepath,
    CellPath,
    Block,
    Boolean,
}

} // verus!
