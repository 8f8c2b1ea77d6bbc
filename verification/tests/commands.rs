use nu_core::call::{Call, Expression};
use nu_core::case::{convert, convert_column, unsupported_input, CaseOperation};
use nu_core::declaration::Declaration;
use nu_core::downcase;
use nu_core::engine_state::{EngineState, StateWorkingSet};
use nu_core::kebab_case;
use nu_core::mkdir::Mkdir;
use nu_core::signature::Signature;
use nu_core::span::Span;
use nu_core::str_command::Str;
use nu_core::ty::{SyntaxShape, Type};
use nu_core::value::{ShellError, Value};

fn string(val: &str) -> Value {
    Value::String { val: val.to_string(), span: Span::unknown() }
}

fn cell(text: &str) -> Value {
    match text.parse::<i64>() {
        Ok(val) => Value::test_int(val),
        Err(_) => string(text),
    }
}

fn words(list: &str) -> Vec<String> {
    list.split(|c: char| c == ' ' || c == ',')
        .filter(|word| !word.is_empty())
        .map(|word| word.to_string())
        .collect()
}

/// Reads the input and the column names out of an example of the form
/// `'text' | command` or `[[columns]; [cells]] | command columns`.
fn example_input(example: &str, command: &str) -> (Vec<Value>, Vec<String>, bool) {
    let (input, call) = example.split_once(" | ").unwrap();
    let columns = words(call.strip_prefix(command).unwrap());
    if let Some(text) = input.strip_prefix('\'') {
        return (vec![string(text.strip_suffix('\'').unwrap())], columns, false);
    }
    let table = input.strip_prefix("[[").unwrap().strip_suffix("]]").unwrap();
    let (header, row) = table.split_once("]; [").unwrap();
    let record = Value::Record {
        cols: words(header),
        vals: words(row).iter().map(|word| cell(word)).collect(),
        span: Span::unknown(),
    };
    (vec![record], columns, true)
}

fn test_examples(decl: Declaration, operate: fn(Value, Span, &Vec<String>) -> Value) {
    let mut engine_state = EngineState::new();
    let delta = {
        let mut working_set = StateWorkingSet::new(&engine_state);
        working_set.add_decl(Str.declaration());
        working_set.add_decl(decl.clone());
        working_set.render()
    };
    assert_eq!(engine_state.merge_delta(delta), Ok(()));
    let decl_id = engine_state.find_decl(decl.name().as_bytes()).unwrap();
    let found = engine_state.get_decl(decl_id).unwrap();
    assert_eq!(found.name(), decl.name());
    assert_eq!(found.signature(), decl.signature());
    assert_eq!(found.examples(), decl.examples());

    for example in decl.examples() {
        let expected = match example.result {
            Some(expected) => expected,
            None => continue,
        };
        let (input, columns, is_table) = example_input(&example.example, decl.name());
        let mut output: Vec<Value> =
            input.into_iter().map(|value| operate(value, Span::unknown(), &columns)).collect();
        let result = if is_table {
            Value::List { vals: output, span: Span::unknown() }
        } else {
            output.remove(0)
        };
        println!("input: {}", example.example);
        println!("result: {:?}", result);
        assert_eq!(result, expected);
    }
}

fn no_operation(value: Value, _head: Span, _columns: &Vec<String>) -> Value {
    value
}

#[test]
fn command_test_examples() {
    test_examples(Str {}.declaration(), no_operation)
}

#[test]
fn kebab_case_test_examples() {
    test_examples(kebab_case::SubCommand {}.declaration(), kebab_case::operate)
}

#[test]
fn downcase_test_examples() {
    test_examples(downcase::SubCommand {}.declaration(), downcase::operate)
}

#[test]
fn downcase_changes_ascii_capitals_only() {
    let head = Span::new(3, 9);
    assert_eq!(
        downcase::action(&string("NuShell ÄB z9_"), head),
        Value::String { val: "nushell Äb z9_".to_string(), span: head }
    );
    assert_eq!(
        downcase::action(&string(""), head),
        Value::String { val: String::new(), span: head }
    );
}

#[test]
fn kebab_case_of_mixed_words() {
    let head = Span::new(1, 2);
    assert_eq!(
        kebab_case::action(&string("Foo Bar_bazQux"), head),
        Value::String { val: "foo-bar-baz-qux".to_string(), span: head }
    );
    assert_eq!(
        convert(CaseOperation::KebabCase, &string("fooBar"), head),
        Value::String { val: "foo-bar".to_string(), span: head }
    );
}

#[test]
fn string_commands_refuse_other_input() {
    let head = Span::new(1, 2);
    let expected = Value::Error {
        error: ShellError::UnsupportedInput(
            "Input's type is int. This command only works with strings.".to_string(),
            Span::unknown(),
        ),
    };
    assert_eq!(downcase::action(&Value::test_int(3), head), expected);
    assert_eq!(kebab_case::action(&Value::test_int(3), head), expected);
    assert_eq!(unsupported_input(&Value::test_int(3)), expected);
    assert_eq!(
        downcase::action(&Value::Nothing { span: head }, head),
        Value::Error {
            error: ShellError::UnsupportedInput(
                "Input's type is nothing. This command only works with strings.".to_string(),
                Span::unknown(),
            ),
        }
    );
    assert_eq!(Value::Bool { val: true, span: head }.get_type(), Type::Bool);
    assert_eq!(Type::CellPath.name(), "cell path");
}

#[test]
fn columns_are_converted_in_records() {
    let head = Span::new(1, 2);
    let record = Value::Record {
        cols: vec!["a".to_string(), "b".to_string(), "a".to_string()],
        vals: vec![string("X"), Value::test_int(1), string("Y")],
        span: Span::new(5, 6),
    };
    assert_eq!(
        convert_column(CaseOperation::Downcase, record.clone(), &"a".to_string(), head),
        Ok(Value::Record {
            cols: vec!["a".to_string(), "b".to_string(), "a".to_string()],
            vals: vec![Value::String { val: "x".to_string(), span: head }, Value::test_int(1), string("Y")],
            span: Span::new(5, 6),
        })
    );
    assert_eq!(
        convert_column(CaseOperation::Downcase, record.clone(), &"c".to_string(), head),
        Err(ShellError::CantFindColumn(head))
    );
    assert_eq!(
        convert_column(CaseOperation::Downcase, record.clone(), &"b".to_string(), head),
        Err(ShellError::UnsupportedInput(
            "Input's type is int. This command only works with strings.".to_string(),
            Span::unknown(),
        ))
    );
    assert_eq!(
        convert_column(CaseOperation::Downcase, string("X"), &"a".to_string(), head),
        Err(ShellError::IncompatiblePathAccess("string".to_string(), head))
    );
    assert_eq!(
        downcase::operate(record.clone(), head, &vec!["a".to_string(), "c".to_string()]),
        Value::Error { error: ShellError::CantFindColumn(head) }
    );
    let short = Value::Record {
        cols: vec!["a".to_string()],
        vals: vec![],
        span: Span::unknown(),
    };
    assert_eq!(
        kebab_case::operate(short, head, &vec!["a".to_string()]),
        Value::Error { error: ShellError::CantFindColumn(head) }
    );
}

#[test]
fn commands_describe_themselves() {
    assert_eq!(Str.name(), "str");
    assert_eq!(Str.usage(), "Various commands for working with string data.");
    assert_eq!(Str.signature(), Signature::build("str"));
    assert!(Str.examples().is_empty());
    assert_eq!(
        Str.run("help text".to_string(), Span::new(2, 5)),
        Value::String { val: "help text".to_string(), span: Span::new(2, 5) }
    );

    let kebab = kebab_case::SubCommand;
    assert_eq!(kebab.name(), "str kebab-case");
    assert_eq!(kebab.usage(), "converts a string to kebab-case");
    let rest = kebab.signature().rest_positional.unwrap();
    assert_eq!(rest.name, "rest");
    assert_eq!(rest.shape, SyntaxShape::CellPath);
    assert_eq!(rest.desc, "optionally convert text to kebab-case by column paths");
    assert_eq!(kebab.examples().len(), 4);

    let down = downcase::SubCommand;
    assert_eq!(down.name(), "str downcase");
    assert_eq!(down.usage(), "downcases text");
    assert_eq!(
        down.signature().rest_positional.unwrap().desc,
        "optionally downcase text by column paths"
    );
    assert_eq!(down.examples().len(), 4);
    assert_eq!(down.declaration().get_block_id(), None);
    assert_eq!(down.declaration().extra_usage(), "");
}

#[test]
fn mkdir_describes_itself() {
    let signature = Mkdir.signature();
    assert_eq!(Mkdir.name(), "mkdir");
    assert_eq!(Mkdir.usage(), "Make directories, creates intermediary directories as required.");
    assert_eq!(signature.name, "mkdir");
    let rest = signature.rest_positional.unwrap();
    assert_eq!(rest.name, "rest");
    assert_eq!(rest.shape, SyntaxShape::Filepath);
    assert_eq!(rest.desc, "the name(s) of the path(s) to create");
    assert_eq!(signature.named.len(), 1);
    assert_eq!(signature.named[0].long, "show-created-paths");
    assert_eq!(signature.named[0].short, Some('s'));
    assert_eq!(signature.named[0].arg, None);
    assert!(!signature.named[0].required);
    assert_eq!(signature.named[0].desc, "show the path(s) created.");
    assert_eq!(Mkdir.declaration().name(), "mkdir");
}

#[test]
fn mkdir_decides_on_each_outcome() {
    let head = Span::new(0, 5);
    let span = Span::new(6, 9);
    assert_eq!(
        Mkdir.check_directories(0, head),
        Err(ShellError::MissingParameter("requires directory paths".to_string(), head))
    );
    assert_eq!(Mkdir.check_directories(2, head), Ok(()));
    assert_eq!(
        Mkdir.after_create(Some("denied".to_string()), "/tmp/a".to_string(), span, true),
        Err(ShellError::CreateNotPossible("failed to create directory: denied".to_string(), span))
    );
    assert_eq!(
        Mkdir.after_create(None, "/tmp/a".to_string(), span, true),
        Ok(Some(Value::String { val: "/tmp/a".to_string(), span }))
    );
    assert_eq!(Mkdir.after_create(None, "/tmp/a".to_string(), span, false), Ok(None));
}

#[test]
fn signature_builder_adds_in_order() {
    let signature = Signature::build("cmd")
        .desc("does things")
        .required("a", SyntaxShape::Int, "first")
        .optional("b", SyntaxShape::String, "second")
        .named("count", SyntaxShape::Int, "how often", Some('c'))
        .switch("quiet", "say nothing", None);
    assert_eq!(signature.name, "cmd");
    assert_eq!(signature.usage, "does things");
    assert_eq!(signature.extra_usage, "");
    assert_eq!(signature.required_positional.len(), 1);
    assert_eq!(signature.required_positional[0].desc, "first");
    assert_eq!(signature.optional_positional.len(), 1);
    assert_eq!(signature.optional_positional[0].name, "b");
    assert_eq!(signature.rest_positional, None);
    assert_eq!(signature.named.len(), 2);
    assert_eq!(signature.named[0].long, "count");
    assert_eq!(signature.named[0].arg, Some(SyntaxShape::Int));
    assert_eq!(signature.named[0].short, Some('c'));
    assert_eq!(signature.named[1].long, "quiet");
    assert_eq!(signature.named[1].arg, None);
    assert_eq!(signature.clone(), signature);
}

#[test]
fn call_finds_arguments_and_flags() {
    let head = Span::new(0, 5);
    let mut call = Call::new(3, head);
    assert_eq!(call.decl_id, 3);
    assert_eq!(call.nth(0), None);
    assert_eq!(call.req_expr(0), Err(ShellError::AccessBeyondEnd(0, head)));
    assert!(call.rest_exprs(0).is_empty());
    let first = Expression { span: Span::new(6, 7) };
    let second = Expression { span: Span::new(8, 9) };
    let third = Expression { span: Span::new(10, 12) };
    call.positional = vec![first, second, third];
    call.named = vec![
        ("quiet".to_string(), None),
        ("count".to_string(), Some(second)),
        ("count".to_string(), Some(third)),
    ];
    assert_eq!(call.nth(1), Some(second));
    assert_eq!(call.nth(3), None);
    assert_eq!(call.req_expr(2), Ok(third));
    assert_eq!(call.req_expr(3), Err(ShellError::AccessBeyondEnd(3, head)));
    assert_eq!(call.rest_exprs(1), vec![second, third]);
    assert_eq!(call.rest_exprs(3), vec![]);
    assert_eq!(call.rest_exprs(9), vec![]);
    assert!(call.has_flag("quiet"));
    assert!(call.has_flag("count"));
    assert!(!call.has_flag("coun"));
    assert_eq!(call.get_flag_expr("quiet"), None);
    assert_eq!(call.get_flag_expr("count"), Some(second));
    assert_eq!(call.get_flag_expr("verbose"), None);
}
