//! What the commands that change the case of text have in common.

use vstd::prelude::*;
use vstd::string::StringExecFns;
use crate::span::Span;
use crate::ty::Type;
use crate::text::{ascii_lowercase, kebab_case_of, to_ascii_lowercase, to_kebab_case};
use crate::value::{
    spec_type_of, strings_view, values_view, ShellError, ShellErrorView, Value, ValueView,
};

verus! {

/// What a string command says of an input of type `ty` that is no string.
pub open spec fn unsupported_message(ty: Type) -> Seq<char> {
    "Input's type is "@ + ty.spec_name() + ". This command only works with strings."@
}

/// The error value that a string command gives for an input that is no string.
pub open spec fn spec_unsupported_input(input: ValueView) -> ValueView {
    ValueView::Error {
        error: ShellErrorView::UnsupportedInput(
            unsupported_message(spec_type_of(input)),
            Span { start: 0, end: 0 },
        ),
    }
}

/// The error value that a string command gives for an input that is no string.
pub fn unsupported_input(other: &Value) -> (value: Value)
    ensures
        value@ == spec_unsupported_input(other@),
{
    let message = String::from_str("Input's type is ").concat(other.get_type().name()).concat(
        ". This command only works with strings.",
    );
    Value::Error { error: ShellError::UnsupportedInput(message, Span::unknown()) }
}

/// The string value that a string command gives at the place of its call.
pub fn converted_string(converted: String, head: Span) -> (value: Value)
    ensures
        value@ == (ValueView::String { val: converted@, span: head }),
{
    Value::String { val: converted, span: head }
}

/// A table of one row and two columns, without a place in the source: a list
/// of one record.
pub fn table_row(first_col: &str, first: Value, second_col: &str, second: Value) -> (table: Value)
    ensures
        table@ == (ValueView::List {
            vals: seq![
                ValueView::Record {
                    cols: seq![first_col@, second_col@],
                    vals: seq![first@, second@],
                    span: Span { start: 0, end: 0 },
                },
            ],
            span: Span { start: 0, end: 0 },
        }),
{
    let cols = vec![first_col.to_owned(), second_col.to_owned()];
    let vals = vec![first, second];
    assert(strings_view(cols@) =~= seq![first_col@, second_col@]);
    assert(values_view(vals@) =~= seq![first@, second@]);
    let record = Value::Record { cols, vals, span: Span::unknown() };
    let rows = vec![record];
    assert(values_view(rows@) =~= seq![record@]);
    Value::List { vals: rows, span: Span::unknown() }
}

/// The conversions of the string commands.
#[derive(Clone, Copy, Debug, PartialEq, Eq, Structural)]
pub enum CaseOperation {
    Downcase,
    KebabCase,
}

/// What a string command makes of a value at the place `head` of its call:
/// of a string its converted form, of anything else an error.
pub open spec fn spec_convert(operation: CaseOperation, input: ValueView, head: Span) -> ValueView {
    match input {
        ValueView::String { val, .. } => ValueView::String {
            val: match operation {
                CaseOperation::Downcase => ascii_lowercase(val),
                CaseOperation::KebabCase => kebab_case_of(val),
            },
            span: head,
        },
        other => spec_unsupported_input(other),
    }
}

/// What a string command makes of a value at the place `head` of its call.
pub fn convert(operation: CaseOperation, input: &Value, head: Span) -> (output: Value)
    ensures
        output@ == spec_convert(operation, input@, head),
{
    match input {
        Value::String { val, .. } => {
            let converted = match operation {
                CaseOperation::Downcase => to_ascii_lowercase(val.as_str()),
                CaseOperation::KebabCase => to_kebab_case(val.as_str()),
            };
            converted_string(converted, head)
        },
        other => unsupported_input(other),
    }
}

/// The first position at which `column` stands among `cols`.
pub open spec fn first_column(cols: Seq<Seq<char>>, column: Seq<char>) -> Option<int> {
    if exists|i: int| 0 <= i < cols.len() && cols[i] == column {
        Some(
            choose|i: int|
                0 <= i < cols.len() && cols[i] == column && forall|j: int|
                    0 <= j < i ==> cols[j] != column,
        )
    } else {
        None
    }
}

/// A record with the value of one column converted. A converted value that is
/// an error becomes the error of the whole. So does a column that the record
/// lacks or for which it holds no value, and so does a value that is no record.
pub open spec fn spec_convert_column(
    operation: CaseOperation,
    value: ValueView,
    column: Seq<char>,
    head: Span,
) -> Result<ValueView, ShellErrorView> {
    match value {
        ValueView::Record { cols, vals, span } => match first_column(cols, column) {
            Some(i) => if i < vals.len() {
                match spec_convert(operation, vals[i], head) {
                    ValueView::Error { error } => Err(error),
                    converted => Ok(ValueView::Record { cols, vals: vals.update(i, converted), span }),
                }
            } else {
                Err(ShellErrorView::CantFindColumn(head))
            },
            None => Err(ShellErrorView::CantFindColumn(head)),
        },
        other => Err(
            ShellErrorView::IncompatiblePathAccess(spec_type_of(other).spec_name(), head),
        ),
    }
}

/// The position of the first of `cols` that equals `column`.
fn find_column(cols: &Vec<String>, column: &String) -> (found: Option<usize>)
    ensures
        match found {
            Some(i) => first_column(strings_view(cols@), column@) == Some(i as int) && i < cols@.len(),
            None => first_column(strings_view(cols@), column@).is_none(),
        },
{
    let ghost names = strings_view(cols@);
    let mut i: usize = 0;
    while i < cols.len()
        invariant
            names == strings_view(cols@),
            i <= cols@.len(),
            forall|j: int| 0 <= j < i ==> names[j] != column@,
        decreases cols@.len() - i,
    {
        if cols[i] == *column {
            proof {
                assert(names[i as int] == column@);
                let k = choose|k: int|
                    0 <= k < names.len() && names[k] == column@ && forall|j: int|
                        0 <= j < k ==> names[j] != column@;
                assert(k == i);
            }
            return Some(i);
        }
        i += 1;
    }
    None
}

/// Converts the value of one column of a record.
pub fn convert_column(operation: CaseOperation, value: Value, column: &String, head: Span) -> (output:
    Result<Value, ShellError>)
    ensures
        match spec_convert_column(operation, value@, column@, head) {
            Ok(converted) => output.is_ok() && output.unwrap()@ == converted,
            Err(error) => output.is_err() && output.unwrap_err()@ == error,
        },
{
    match value {
        Value::Record { cols, vals, span } => {
            let ghost names = strings_view(cols@);
            let ghost before = values_view(vals@);
            assert(value@ == (ValueView::Record { cols: names, vals: before, span }));
            match find_column(&cols, column) {
                Some(i) => {
                    if i < vals.len() {
                        assert(before[i as int] == vals@[i as int]@);
                        let converted = convert(operation, &vals[i], head);
                        match converted {
                            Value::Error { error } => {
                                assert(converted@ == (ValueView::Error { error: error@ }));
                                Err(error)
                            },
                            converted => {
                                let mut vals = vals;
                                vals[i] = converted;
                                assert(values_view(vals@) =~= before.update(i as int, converted@));
                                assert(!(converted@ is Error));
                                Ok(Value::Record { cols, vals, span })
                            },
                        }
                    } else {
                        Err(ShellError::CantFindColumn(head))
                    }
                },
                None => Err(ShellError::CantFindColumn(head)),
            }
        },
        other => Err(
            ShellError::IncompatiblePathAccess(other.get_type().name().to_owned(), head),
        ),
    }
}

/// What a string command gives for one value of its input: without column
/// names the converted value; with column names the value with these columns
/// converted one after the other, or the first error on the way, as an error
/// value.
pub open spec fn spec_operate(
    operation: CaseOperation,
    value: ValueView,
    head: Span,
    columns: Seq<Seq<char>>,
) -> ValueView {
    if columns.len() == 0 {
        spec_convert(operation, value, head)
    } else {
        spec_convert_columns(operation, value, head, columns)
    }
}

/// A value with the given columns converted one after the other, or the first
/// error on the way, as an error value.
pub open spec fn spec_convert_columns(
    operation: CaseOperation,
    value: ValueView,
    head: Span,
    columns: Seq<Seq<char>>,
) -> ValueView
    decreases columns.len(),
{
    if columns.len() == 0 {
        value
    } else {
        match spec_convert_column(operation, value, columns[0], head) {
            Ok(converted) => spec_convert_columns(operation, converted, head, columns.drop_first()),
            Err(error) => ValueView::Error { error },
        }
    }
}

/// What a string command gives for one value of its input.
pub fn operate(operation: CaseOperation, value: Value, head: Span, column_paths: &Vec<String>) -> (output:
    Value)
    ensures
        output@ == spec_operate(operation, value@, head, strings_view(column_paths@)),
{
    if column_paths.len() == 0 {
        return convert(operation, &value, head);
    }
    let ghost columns = strings_view(column_paths@);
    let mut ret = value;
    let mut i: usize = 0;
    assert(columns.subrange(0, columns.len() as int) =~= columns);
    while i < column_paths.len()
        invariant
            columns == strings_view(column_paths@),
            i <= columns.len(),
            spec_convert_columns(operation, value@, head, columns) == spec_convert_columns(
                operation,
                ret@,
                head,
                columns.subrange(i as int, columns.len() as int),
            ),
        decreases columns.len() - i,
    {
        proof {
            let rest = columns.subrange(i as int, columns.len() as int);
            assert(rest[0] == column_paths@[i as int]@);
            assert(rest.drop_first() =~= columns.subrange(i + 1, columns.len() as int));
        }
        match convert_column(operation, ret, &column_paths[i], head) {
            Ok(converted) => {
                ret = converted;
            },
            Err(error) => {
                return Value::Error { error };
            },
        }
        i += 1;
    }
    ret
}

} // verus!
