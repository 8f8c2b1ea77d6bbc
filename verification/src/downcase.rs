//! The command `str downcase`.

use vstd::prelude::*;
use crate::case::{convert, spec_convert, spec_operate, table_row, CaseOperation};
use crate::declaration::{Declaration, DeclarationView};
use crate::signature::{examples_view, Example, ExampleView, Signature, SignatureView, PositionalArgView};
use crate::span::Span;
use crate::ty::SyntaxShape;
use crate::value::{strings_view, Value, ValueView};

verus! {

/// The command `str downcase`: puts text into lower case.
#[derive(Clone, Copy, Debug)]
pub struct SubCommand;

/// What `str downcase` makes of a value at the place `head` of its call: of a
/// string its converted form, of anything else an error.
pub fn action(input: &Value, head: Span) -> (output: Value)
    ensures
        output@ == spec_convert(CaseOperation::Downcase, input@, head),
{
    convert(CaseOperation::Downcase, input, head)
}

/// What `str downcase` gives for one value of its input: without column names the
/// converted value; with column names the value with these columns converted.
pub fn operate(value: Value, head: Span, column_paths: &Vec<String>) -> (output: Value)
    ensures
        output@ == spec_operate(CaseOperation::Downcase, value@, head, strings_view(column_paths@)),
{
    crate::case::operate(CaseOperation::Downcase, value, head, column_paths)
}

impl SubCommand {
    /// The signature of the command.
    pub open spec fn spec_signature() -> SignatureView {
        SignatureView {
            rest_positional: Some(
                PositionalArgView {
                    name: "rest"@,
                    desc: "optionally downcase text by column paths"@,
                    shape: SyntaxShape::CellPath,
                },
            ),
            ..Signature::spec_new("str downcase"@)
        }
    }

    /// What the command is called.
    pub fn name(&self) -> (name: &'static str)
        ensures
            name@ == "str downcase"@,
    {
        "str downcase"
    }

    /// What the command expects of a call: any number of column paths.
    pub fn signature(&self) -> (signature: Signature)
        ensures
            signature@ == Self::spec_signature(),
    {
        Signature::build("str downcase").rest(
            "rest",
            SyntaxShape::CellPath,
            "optionally downcase text by column paths",
        )
    }

    /// What the command does, in a line.
    pub fn usage(&self) -> (usage: &'static str)
        ensures
            usage@ == "downcases text"@,
    {
        "downcases text"
    }

    /// The command as a declaration.
    pub fn declaration(&self) -> (decl: Declaration)
        ensures
            decl@ == (DeclarationView {
                name: "str downcase"@,
                signature: Self::spec_signature(),
                usage: "downcases text"@,
                extra_usage: Seq::empty(),
                examples: Self::spec_examples(),
                block_id: None,
            }),
    {
        let mut decl = Declaration::new(self.name(), self.signature(), self.usage());
        decl.examples = self.examples();
        decl
    }

    /// The sample calls of the command: two on strings, two on columns of a table.
    pub open spec fn spec_examples() -> Seq<ExampleView> {
        let unknown = Span { start: 0, end: 0 };
        seq![
            ExampleView {
                description: "Downcase contents"@,
                example: "'NU' | str downcase"@,
                result: Some(ValueView::String { val: "nu"@, span: unknown }),
            },
            ExampleView {
                description: "Downcase contents"@,
                example: "'TESTa' | str downcase"@,
                result: Some(ValueView::String { val: "testa"@, span: unknown }),
            },
            ExampleView {
                description: "Downcase contents"@,
                example: "[[ColA ColB]; [Test ABC]] | str downcase ColA"@,
                result: Some(
                    ValueView::List {
                        vals: seq![
                            ValueView::Record {
                                cols: seq!["ColA"@, "ColB"@],
                                vals: seq![
                                    ValueView::String { val: "test"@, span: unknown },
                                    ValueView::String { val: "ABC"@, span: unknown },
                                ],
                                span: unknown,
                            },
                        ],
                        span: unknown,
                    },
                ),
            },
            ExampleView {
                description: "Downcase contents"@,
                example: "[[ColA ColB]; [Test ABC]] | str downcase ColA ColB"@,
                result: Some(
                    ValueView::List {
                        vals: seq![
                            ValueView::Record {
                                cols: seq!["ColA"@, "ColB"@],
                                vals: seq![
                                    ValueView::String { val: "test"@, span: unknown },
                                    ValueView::String { val: "abc"@, span: unknown },
                                ],
                                span: unknown,
                            },
                        ],
                        span: unknown,
                    },
                ),
            },
        ]
    }

    /// Sample calls of the command.
    pub fn examples(&self) -> (examples: Vec<Example>)
        ensures
            examples_view(examples@) == Self::spec_examples(),
    {
        let first = Example {
            description: "Downcase contents".to_owned(),
            example: "'NU' | str downcase".to_owned(),
            result: Some(Value::String { val: "nu".to_owned(), span: Span::unknown() }),
        };
        let second = Example {
            description: "Downcase contents".to_owned(),
            example: "'TESTa' | str downcase".to_owned(),
            result: Some(Value::String { val: "testa".to_owned(), span: Span::unknown() }),
        };
        let third = Example {
            description: "Downcase contents".to_owned(),
            example: "[[ColA ColB]; [Test ABC]] | str downcase ColA".to_owned(),
            result: Some(
                table_row(
                    "ColA",
                    Value::String { val: "test".to_owned(), span: Span::unknown() },
                    "ColB",
                    Value::String { val: "ABC".to_owned(), span: Span::unknown() },
                ),
            ),
        };
        let fourth = Example {
            description: "Downcase contents".to_owned(),
            example: "[[ColA ColB]; [Test ABC]] | str downcase ColA ColB".to_owned(),
            result: Some(
                table_row(
                    "ColA",
                    Value::String { val: "test".to_owned(), span: Span::unknown() },
                    "ColB",
                    Value::String { val: "abc".to_owned(), span: Span::unknown() },
                ),
            ),
        };
        let examples = vec![first, second, third, fourth];
        assert(examples_view(examples@) =~= Self::spec_examples());
        examples
    }
}

} // verus!
