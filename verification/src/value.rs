//! The values that commands take and give, and the errors they report.

use vstd::prelude::*;
use crate::span::Span;
use crate::ty::Type;

verus! {

/// What went wrong in a command, with the place in the source it is about.
#[derive(Debug, PartialEq)]
pub enum ShellError {
    UnsupportedInput(String, Span),
    MissingParameter(String, Span),
    CreateNotPossible(String, Span),
    AccessBeyondEnd(usize, Span),
    CantFindColumn(Span),
    IncompatiblePathAccess(String, Span),
}

/// A value of the shell's language.
#[derive(Debug, PartialEq)]
pub enum Value {
    Bool { val: bool, span: Span },
    Int { val: i64, span: Span },
    String { val: String, span: Span },
    Record { cols: Vec<String>, vals: Vec<Value>, span: Span },
    List { vals: Vec<Value>, span: Span },
    Nothing { span: Span },
    Error { error: ShellError },
}

/// A shell error as a mathematical value.
pub enum ShellErrorView {
    UnsupportedInput(Seq<char>, Span),
    MissingParameter(Seq<char>, Span),
    CreateNotPossible(Seq<char>, Span),
    AccessBeyondEnd(usize, Span),
    CantFindColumn(Span),
    IncompatiblePathAccess(Seq<char>, Span),
}

/// A value as a mathematical value.
pub enum ValueView {
    Bool { val: bool, span: Span },
    Int { val: i64, span: Span },
    String { val: Seq<char>, span: Span },
    Record { cols: Seq<Seq<char>>, vals: Seq<ValueView>, span: Span },
    List { vals: Seq<ValueView>, span: Span },
    Nothing { span: Span },
    Error { error: ShellErrorView },
}

impl View for ShellError {
    type V = ShellErrorView;

    open spec fn view(&self) -> ShellErrorView {
        match *self {
            ShellError::UnsupportedInput(msg, span) => ShellErrorView::UnsupportedInput(msg@, span),
            ShellError::MissingParameter(msg, span) => ShellErrorView::MissingParameter(msg@, span),
            ShellError::CreateNotPossible(msg, span) => ShellErrorView::CreateNotPossible(
                msg@,
                span,
            ),
            ShellError::AccessBeyondEnd(len, span) => ShellErrorView::AccessBeyondEnd(len, span),
            ShellError::CantFindColumn(span) => ShellErrorView::CantFindColumn(span),
            ShellError::IncompatiblePathAccess(ty, span) => ShellErrorView::IncompatiblePathAccess(
                ty@,
                span,
            ),
        }
    }
}

/// The views of a list of strings, element by element.
pub open spec fn strings_view(strings: Seq<String>) -> Seq<Seq<char>> {
    Seq::new(strings.len(), |i: int| strings[i]@)
}

/// The views of a list of values, element by element.
pub open spec fn values_view(vals: Seq<Value>) -> Seq<ValueView>
    decreases vals,
{
    Seq::new(vals.len(), |i: int| if 0 <= i < vals.len() { value_view(vals[i]) } else { arbitrary() })
}

/// The view of one value.
pub open spec fn value_view(value: Value) -> ValueView
    decreases value,
{
    match value {
        Value::Bool { val, span } => ValueView::Bool { val, span },
        Value::Int { val, span } => ValueView::Int { val, span },
        Value::String { val, span } => ValueView::String { val: val@, span },
        Value::Record { cols, vals, span } => ValueView::Record {
            cols: strings_view(cols@),
            vals: values_view(vals@),
            span,
        },
        Value::List { vals, span } => ValueView::List { vals: values_view(vals@), span },
        Value::Nothing { span } => ValueView::Nothing { span },
        Value::Error { error } => ValueView::Error { error: error@ },
    }
}

impl View for Value {
    type V = ValueView;

    open spec fn view(&self) -> ValueView {
        value_view(*self)
    }
}

impl Clone for ShellError {
    fn clone(&self) -> (copy: Self)
        ensures
            copy@ == self@,
    {
        match self {
            ShellError::UnsupportedInput(msg, span) => ShellError::UnsupportedInput(
                msg.clone(),
                *span,
            ),
            ShellError::MissingParameter(msg, span) => ShellError::MissingParameter(
                msg.clone(),
                *span,
            ),
            ShellError::CreateNotPossible(msg, span) => ShellError::CreateNotPossible(
                msg.clone(),
                *span,
            ),
            ShellError::AccessBeyondEnd(len, span) => ShellError::AccessBeyondEnd(*len, *span),
            ShellError::CantFindColumn(span) => ShellError::CantFindColumn(*span),
            ShellError::IncompatiblePathAccess(ty, span) => ShellError::IncompatiblePathAccess(
                ty.clone(),
                *span,
            ),
        }
    }
}

/// A copy of a list of strings.
pub fn clone_strings(strings: &Vec<String>) -> (copy: Vec<String>)
    ensures
        copy@.len() == strings@.len(),
        forall|i: int| 0 <= i < strings@.len() ==> copy@[i]@ == strings@[i]@,
{
    let mut copy: Vec<String> = Vec::new();
    let mut i: usize = 0;
    while i < strings.len()
        invariant
            i <= strings@.len(),
            copy@.len() == i,
            forall|k: int| 0 <= k < i ==> copy@[k]@ == strings@[k]@,
        decreases strings@.len() - i,
    {
        copy.push(strings[i].clone());
        i += 1;
    }
    copy
}

/// A copy of a list of values.
pub fn clone_values(vals: &Vec<Value>) -> (copy: Vec<Value>)
    ensures
        values_view(copy@) == values_view(vals@),
    decreases vals,
{
    let mut copy: Vec<Value> = Vec::new();
    let mut i: usize = 0;
    while i < vals.len()
        invariant
            i <= vals@.len(),
            copy@.len() == i,
            forall|k: int| 0 <= k < i ==> copy@[k]@ == vals@[k]@,
        decreases vals@.len() - i,
    {
        copy.push(clone_value(&vals[i]));
        i += 1;
    }
    assert(values_view(copy@) =~= values_view(vals@));
    copy
}

/// A copy of a value.
pub fn clone_value(value: &Value) -> (copy: Value)
    ensures
        copy@ == value@,
    decreases value,
{
    match value {
        Value::Bool { val, span } => Value::Bool { val: *val, span: *span },
        Value::Int { val, span } => Value::Int { val: *val, span: *span },
        Value::String { val, span } => Value::String { val: val.clone(), span: *span },
        Value::Record { cols, vals, span } => {
            let cols_copy = clone_strings(cols);
            let vals_copy = clone_values(vals);
            assert(strings_view(cols_copy@) =~= strings_view(cols@));
            Value::Record { cols: cols_copy, vals: vals_copy, span: *span }
        },
        Value::List { vals, span } => Value::List { vals: clone_values(vals), span: *span },
        Value::Nothing { span } => Value::Nothing { span: *span },
        Value::Error { error } => Value::Error { error: error.clone() },
    }
}

impl Clone for Value {
    fn clone(&self) -> (copy: Self)
        ensures
            copy@ == self@,
    {
        clone_value(self)
    }
}

impl Value {
    /// An integer value without a place in the source.
    pub fn test_int(val: i64) -> (value: Value)
        ensures
            value@ == (ValueView::Int { val, span: Span { start: 0, end: 0 } }),
    {
        Value::Int { val, span: Span::unknown() }
    }

    /// The type of the value.
    pub fn get_type(&self) -> (ty: Type)
        ensures
            ty == spec_type_of(self@),
    {
        match self {
            Value::Bool { .. } => Type::Bool,
            Value::Int { .. } => Type::Int,
            Value::String { .. } => Type::String,
            Value::Record { .. } => Type::Record,
            Value::List { .. } => Type::List,
            Value::Nothing { .. } => Type::Nothing,
            Value::Error { .. } => Type::Error,
        }
    }
}

/// The type of a value.
pub open spec fn spec_type_of(value: ValueView) -> Type {
    match value {
        ValueView::Bool { .. } => Type::Bool,
        ValueView::Int { .. } => Type::Int,
        ValueView::String { .. } => Type::String,
        ValueView::Record { .. } => Type::Record,
        ValueView::List { .. } => Type::List,
        ValueView::Nothing { .. } => Type::Nothing,
        ValueView::Error { .. } => Type::Error,
    }
}

} // verus!
