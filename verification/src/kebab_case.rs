//! The command `str kebab-case`.

use vstd::prelude::*;
use crate::case::{convert, spec_convert, spec_operate, table_row, CaseOperation};
use crate::declaration::{Declaration, DeclarationView};
use crate::signature::{
    examples_view, Example, ExampleView, PositionalArgView, Signature, SignatureView,
};
use crate::span::Span;
use crate::ty::SyntaxShape;
use crate::value::{strings_view, Value, ValueView};

verus! {

/// The command `str kebab-case`: puts text into kebab-case.
#[derive(Clone, Copy, Debug)]
pub struct SubCommand;

/// What `str kebab-case` makes of a value at the place `head` of its call: of a
/// string its converted form, of anything else an error.
pub fn action(input: &Value, head: Span) -> (output: Value)
    ensures
        output@ == spec_convert(CaseOperation::KebabCase, input@, head),
{
    convert(CaseOperation::KebabCase, input, head)
}

/// What `str kebab-case` gives for one value of its input: without column names the
/// converted value; with column names the value with these columns converted.
pub fn operate(value: Value, head: Span, column_paths: &Vec<String>) -> (output: Value)
    ensures
        output@ == spec_operate(CaseOperation::KebabCase, value@, head, strings_view(column_paths@)),
{
    crate::case::operate(CaseOperation::KebabCase, value, head, column_paths)
}

impl SubCommand {
    /// The signature of the command.
    pub open spec fn spec_signature() -> SignatureView {
        SignatureView {
            rest_positional: Some(
                PositionalArgView {
                    name: "rest"@,
                    desc: "optionally convert text to kebab-case by column paths"@,
                    shape: SyntaxShape::CellPath,
                },
            ),
            ..Signature::spec_new("str kebab-case"@)
        }
    }

    /// What the command is called.
    pub fn name(&self) -> (name: &'static str)
        ensures
            name@ == "str kebab-case"@,
    {
        "str kebab-case"
    }

    /// What the command expects of a call: any number of column paths.
    pub fn signature(&self) -> (signature: Signature)
        ensures
            signature@ == Self::spec_signature(),
    {
        Signature::build("str kebab-case").rest(
            "rest",
            SyntaxShape::CellPath,
            "optionally convert text to kebab-case by column paths",
        )
    }

    /// What the command does, in a line.
    pub fn usage(&self) -> (usage: &'static str)
        ensures
            usage@ == "converts a string to kebab-case"@,
    {
        "converts a string to kebab-case"
    }

    /// The command as a declaration.
    pub fn declaration(&self) -> (decl: Declaration)
        ensures
            decl@ == (DeclarationView {
                name: "str kebab-case"@,
                signature: Self::spec_signature(),
                usage: "converts a string to kebab-case"@,
                extra_usage: Seq::empty(),
                examples: Self::spec_examples(),
                block_id: None,
            }),
    {
        let mut decl = Declaration::new(self.name(), self.signature(), self.usage());
        decl.examples = self.examples();
        decl
    }

    /// The sample calls of the command: three on strings, one on a column of a table.
    pub open spec fn spec_examples() -> Seq<ExampleView> {
        let unknown = Span { start: 0, end: 0 };
        seq![
            ExampleView {
                description: "convert a string to kebab-case"@,
                example: "'NuShell' | str kebab-case"@,
                result: Some(ValueView::String { val: "nu-shell"@, span: unknown }),
            },
            ExampleView {
                description: "convert a string to kebab-case"@,
                example: "'thisIsTheFirstCase' | str kebab-case"@,
                result: Some(ValueView::String { val: "this-is-the-first-case"@, span: unknown }),
            },
            ExampleView {
                description: "convert a string to kebab-case"@,
                example: "'THIS_IS_THE_SECOND_CASE' | str kebab-case"@,
                result: Some(ValueView::String { val: "this-is-the-second-case"@, span: unknown }),
            },
            ExampleView {
                description: "convert a column from a table to kebab-case"@,
                example: "[[lang, gems]; [nuTest, 100]] | str kebab-case lang"@,
                result: Some(
                    ValueView::List {
                        vals: seq![
                            ValueView::Record {
                                cols: seq!["lang"@, "gems"@],
                                vals: seq![
                                    ValueView::String { val: "nu-test"@, span: unknown },
                                    ValueView::Int { val: 100, span: unknown },
                                ],
                                span: unknown,
                            },
                        ],
                        span: unknown,
                    },
                ),
            },
        ]
    }

    /// Sample calls of the command.
    pub fn examples(&self) -> (examples: Vec<Example>)
        ensures
            examples_view(examples@) == Self::spec_examples(),
    {
        let first = Example {
            description: "convert a string to kebab-case".to_owned(),
            example: "'NuShell' | str kebab-case".to_owned(),
            result: Some(Value::String { val: "nu-shell".to_owned(), span: Span::unknown() }),
        };
        let second = Example {
            description: "convert a string to kebab-case".to_owned(),
            example: "'thisIsTheFirstCase' | str kebab-case".to_owned(),
            result: Some(
                Value::String { val: "this-is-the-first-case".to_owned(), span: Span::unknown() },
            ),
        };
        let third = Example {
            description: "convert a string to kebab-case".to_owned(),
            example: "'THIS_IS_THE_SECOND_CASE' | str kebab-case".to_owned(),
            result: Some(
                Value::String { val: "this-is-the-second-case".to_owned(), span: Span::unknown() },
            ),
        };
        let fourth = Example {
            description: "convert a column from a table to kebab-case".to_owned(),
            example: "[[lang, gems]; [nuTest, 100]] | str kebab-case lang".to_owned(),
            result: Some(
                table_row(
                    "lang",
                    Value::String { val: "nu-test".to_owned(), span: Span::unknown() },
                    "gems",
                    Value::test_int(100),
                ),
            ),
        };
        let examples = vec![first, second, third, fourth];
        assert(examples_view(examples@) =~= Self::spec_examples());
        examples
    }
}

} // verus!
