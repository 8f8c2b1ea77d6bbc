use nu_core::declaration::{Block, Declaration};
use nu_core::engine_state::{EngineState, StateWorkingSet};
use nu_core::error::{EngineError, IdKind};
use nu_core::id::{CONFIG_VARIABLE_ID, IN_VARIABLE_ID, NU_VARIABLE_ID, SCOPE_VARIABLE_ID};
use nu_core::signature::Signature;
use nu_core::span::Span;
use nu_core::ty::{SyntaxShape, Type};

fn cmd(name: &str) -> Declaration {
    Declaration::new(name, Signature::build(name), "a command for tests")
}

fn user_cmd(name: &str, block_id: usize) -> Declaration {
    let mut decl = cmd(name);
    decl.block_id = Some(block_id);
    decl
}

fn engine_with(names: &[&str]) -> EngineState {
    let mut engine_state = EngineState::new();
    let delta = {
        let mut working_set = StateWorkingSet::new(&engine_state);
        for name in names {
            working_set.add_decl(cmd(name));
        }
        working_set.render()
    };
    assert_eq!(engine_state.merge_delta(delta), Ok(()));
    engine_state
}

#[test]
fn add_file_gives_id() {
    let engine_state = EngineState::new();
    let mut engine_state = StateWorkingSet::new(&engine_state);
    let id = engine_state.add_file("test.nu".into(), &[]);

    assert_eq!(id, 0);
}

#[test]
fn add_file_gives_id_including_parent() {
    let mut engine_state = EngineState::new();
    let parent_id = engine_state.add_file("test.nu".into(), vec![]);

    let mut working_set = StateWorkingSet::new(&engine_state);
    let working_set_id = working_set.add_file("child.nu".into(), &[]);

    assert_eq!(parent_id, 0);
    assert_eq!(working_set_id, 1);
}

#[test]
fn merge_states() {
    let mut engine_state = EngineState::new();
    engine_state.add_file("test.nu".into(), vec![]);

    let delta = {
        let mut working_set = StateWorkingSet::new(&engine_state);
        working_set.add_file("child.nu".into(), &[]);
        working_set.render()
    };

    assert_eq!(engine_state.merge_delta(delta), Ok(()));

    assert_eq!(engine_state.num_files(), 2);
    assert_eq!(&engine_state.files()[0].0, "test.nu");
    assert_eq!(&engine_state.files()[1].0, "child.nu");
}

#[test]
fn engine_add_file_returns_zero() {
    let mut engine_state = EngineState::new();
    assert_eq!(engine_state.add_file("test.nu".into(), vec![]), 0);
    assert_eq!(engine_state.num_files(), 1);
}

#[test]
fn working_set_counts_committed_files() {
    let mut engine_state = EngineState::new();
    engine_state.add_file("a.nu".into(), vec![]);
    let mut working_set = StateWorkingSet::new(&engine_state);
    assert_eq!(working_set.add_file("b.nu".into(), &[]), 1);
    assert_eq!(working_set.num_files(), 2);
}

#[test]
fn merged_files_keep_their_order() {
    let mut engine_state = EngineState::new();
    engine_state.add_file("test.nu".into(), vec![]);
    let delta = {
        let mut working_set = StateWorkingSet::new(&engine_state);
        working_set.add_file("child.nu".into(), &[]);
        working_set.render()
    };
    assert!(engine_state.accepts(&delta));
    assert_eq!(engine_state.merge_delta(delta), Ok(()));
    let names: Vec<String> = engine_state.files().into_iter().map(|file| file.0).collect();
    assert_eq!(names, vec!["test.nu".to_string(), "child.nu".to_string()]);
}

#[test]
fn predecl_is_found_promoted_and_committed() {
    let mut engine_state = EngineState::new();
    let (id, delta) = {
        let mut working_set = StateWorkingSet::new(&engine_state);
        assert_eq!(working_set.add_predecl(cmd("foo")), None);
        let id = working_set.find_decl(b"foo");
        assert_eq!(id, Some(0));
        assert_eq!(working_set.merge_predecl(b"foo"), Some(0));
        assert_eq!(working_set.find_decl(b"foo"), id);
        (id, working_set.render())
    };
    assert_eq!(engine_state.merge_delta(delta), Ok(()));
    assert_eq!(engine_state.find_decl(b"foo"), id);
    assert_eq!(engine_state.get_decl(0).unwrap().name(), "foo");
}

#[test]
fn predecl_twice_replaces_the_binding() {
    let engine_state = EngineState::new();
    let mut working_set = StateWorkingSet::new(&engine_state);
    assert_eq!(working_set.add_predecl(cmd("foo")), None);
    assert_eq!(working_set.add_predecl(cmd("foo")), Some(0));
    assert_eq!(working_set.find_decl(b"foo"), Some(1));
    assert_eq!(working_set.num_decls(), 2);
    assert_eq!(working_set.merge_predecl(b"bar"), None);
    assert_eq!(working_set.merge_predecl(b"foo"), Some(1));
    assert_eq!(working_set.merge_predecl(b"foo"), None);
    assert_eq!(working_set.find_decl(b"foo"), Some(1));
}

#[test]
fn predecl_is_not_committed() {
    let mut engine_state = EngineState::new();
    let delta = {
        let mut working_set = StateWorkingSet::new(&engine_state);
        working_set.add_predecl(cmd("foo"));
        working_set.render()
    };
    assert_eq!(engine_state.merge_delta(delta), Ok(()));
    assert_eq!(engine_state.num_decls(), 1);
    assert_eq!(engine_state.find_decl(b"foo"), None);
}

#[test]
fn hidden_committed_decl_stays_hidden_and_can_be_declared_anew() {
    let mut engine_state = engine_with(&["foo"]);
    assert_eq!(engine_state.find_decl(b"foo"), Some(0));
    let delta = {
        let mut working_set = StateWorkingSet::new(&engine_state);
        assert_eq!(working_set.hide_decl(b"foo"), Some(0));
        assert_eq!(working_set.find_decl(b"foo"), None);
        assert_eq!(working_set.hide_decl(b"foo"), None);
        working_set.render()
    };
    assert_eq!(engine_state.merge_delta(delta), Ok(()));
    assert_eq!(engine_state.find_decl(b"foo"), None);
    assert_eq!(engine_state.num_decls(), 1);

    let mut working_set = StateWorkingSet::new(&engine_state);
    assert_eq!(working_set.find_decl(b"foo"), None);
    working_set.enter_scope();
    let id = working_set.add_decl(cmd("foo"));
    assert_eq!(id, 1);
    assert_eq!(working_set.find_decl(b"foo"), Some(id));
    working_set.exit_scope();
    assert_eq!(working_set.find_decl(b"foo"), None);
}

#[test]
fn spans_resolve_within_one_file() {
    let mut engine_state = EngineState::new();
    assert_eq!(engine_state.add_file("a.nu".into(), b"abc".to_vec()), 0);
    assert_eq!(engine_state.add_file("b.nu".into(), b"defgh".to_vec()), 1);
    assert_eq!(engine_state.next_span_start(), 8);
    assert_eq!(engine_state.get_span_contents(&Span::new(3, 8)), Ok(&b"defgh"[..]));
    assert_eq!(engine_state.get_span_contents(&Span::new(0, 3)), Ok(&b"abc"[..]));
    assert_eq!(engine_state.get_span_contents(&Span::new(4, 6)), Ok(&b"ef"[..]));
    assert_eq!(
        engine_state.get_span_contents(&Span::new(2, 6)),
        Err(EngineError::SpanOutOfRange(Span::new(2, 6)))
    );
    assert_eq!(
        engine_state.get_span_contents(&Span::new(7, 9)),
        Err(EngineError::SpanOutOfRange(Span::new(7, 9)))
    );
    assert_eq!(
        engine_state.get_span_contents(&Span::new(2, 1)),
        Err(EngineError::SpanOutOfRange(Span::new(2, 1)))
    );
    assert_eq!(
        engine_state.files(),
        vec![("a.nu".to_string(), 0, 3), ("b.nu".to_string(), 3, 8)]
    );
}

#[test]
fn span_of_every_file_reads_the_file() {
    let mut engine_state = EngineState::new();
    engine_state.add_file("a.nu".into(), b"abc".to_vec());
    engine_state.add_file("empty.nu".into(), vec![]);
    engine_state.add_file("b.nu".into(), b"defgh".to_vec());
    let mut working_set = StateWorkingSet::new(&engine_state);
    working_set.add_file("c.nu".into(), b"ij");
    let expected: Vec<&[u8]> = vec![b"abc", b"", b"defgh", b"ij"];
    let files = working_set.files();
    assert_eq!(files.len(), 4);
    let mut cursor = 0;
    for (id, file) in files.iter().enumerate() {
        assert_eq!(file.1, cursor);
        assert_eq!(file.2 - file.1, expected[id].len());
        cursor = file.2;
        assert_eq!(working_set.get_span_contents(Span::new(file.1, file.2)), Ok(expected[id]));
    }
    for (id, file) in engine_state.files().iter().enumerate() {
        assert_eq!(engine_state.get_span_contents(&Span::new(file.1, file.2)), Ok(expected[id]));
    }
}

#[test]
fn working_set_reads_spans_of_both_parts() {
    let mut engine_state = EngineState::new();
    engine_state.add_file("a.nu".into(), b"abc".to_vec());
    let mut working_set = StateWorkingSet::new(&engine_state);
    assert_eq!(working_set.global_span_offset(), 3);
    assert_eq!(working_set.next_span_start(), 3);
    working_set.add_file("b.nu".into(), b"defgh");
    assert_eq!(working_set.next_span_start(), 8);
    assert_eq!(working_set.global_span_offset(), 3);
    assert_eq!(working_set.get_span_contents(Span::new(1, 3)), Ok(&b"bc"[..]));
    assert_eq!(working_set.get_span_contents(Span::new(3, 5)), Ok(&b"de"[..]));
    assert_eq!(
        working_set.get_span_contents(Span::new(2, 5)),
        Err(EngineError::SpanOutOfRange(Span::new(2, 5)))
    );
    assert_eq!(
        working_set.get_span_contents(Span::new(8, 9)),
        Err(EngineError::SpanOutOfRange(Span::new(8, 9)))
    );
}

#[test]
fn file_names_and_sources_round_trip() {
    let mut engine_state = EngineState::new();
    let id = engine_state.add_file("a.nu".into(), b"let x = 1".to_vec());
    assert_eq!(engine_state.get_filename(id), "a.nu");
    assert_eq!(engine_state.get_file_source(id), "let x = 1");
    assert_eq!(engine_state.get_filename(7), "<unknown>");
    assert_eq!(engine_state.get_file_source(7), "<unknown>");

    let mut working_set = StateWorkingSet::new(&engine_state);
    let child = working_set.add_file("b.nu".into(), b"x + 1");
    assert_eq!(child, 1);
    assert_eq!(working_set.get_filename(0), "a.nu");
    assert_eq!(working_set.get_file_source(0), "let x = 1");
    assert_eq!(working_set.get_filename(child), "b.nu");
    assert_eq!(working_set.get_file_source(child), "x + 1");
    assert_eq!(working_set.get_filename(2), "<unknown>");
    assert_eq!(working_set.get_file_source(2), "<unknown>");
}

#[test]
fn file_source_replaces_bytes_that_are_not_utf8() {
    let mut engine_state = EngineState::new();
    let id = engine_state.add_file("bad.nu".into(), vec![b'a', 0xff, b'b']);
    assert_eq!(engine_state.get_file_source(id), "a\u{fffd}b");
}

#[test]
fn empty_engine_finds_nothing() {
    let engine_state = EngineState::new();
    assert_eq!(engine_state.find_decl(b"foo"), None);
    assert_eq!(
        engine_state.get_decl(0).err(),
        Some(EngineError::MissingId(IdKind::Decl, 0))
    );
    assert_eq!(
        engine_state.get_block(0).err(),
        Some(EngineError::MissingId(IdKind::Block, 0))
    );
    assert_eq!(engine_state.get_var(4), Err(EngineError::MissingId(IdKind::Var, 4)));
    assert_eq!(engine_state.num_files(), 0);
    assert_eq!(engine_state.num_decls(), 0);
    assert_eq!(engine_state.num_blocks(), 0);
    assert_eq!(engine_state.next_span_start(), 0);
    assert!(engine_state.find_commands_by_prefix(b"").is_empty());
}

#[test]
fn reserved_variables_are_there() {
    let engine_state = EngineState::default();
    assert_eq!(engine_state.num_vars(), 4);
    for id in [NU_VARIABLE_ID, SCOPE_VARIABLE_ID, IN_VARIABLE_ID, CONFIG_VARIABLE_ID] {
        assert_eq!(engine_state.get_var(id), Ok(&Type::Unknown));
    }
    let working_set = StateWorkingSet::new(&engine_state);
    assert_eq!(working_set.next_var_id(), 4);
}

#[test]
fn ids_survive_the_merge() {
    let mut engine_state = engine_with(&["first"]);
    engine_state.add_file("a.nu".into(), b"abc".to_vec());
    let (decl_id, block_id, var_id, file_id, module_id, delta) = {
        let mut working_set = StateWorkingSet::new(&engine_state);
        let decl_id = working_set.add_decl(cmd("second"));
        let mut block = Block::new();
        block.stmts.push(Span::new(0, 3));
        let block_id = working_set.add_block(block);
        let var_id = working_set.add_variable(b"$x".to_vec(), Type::Int);
        let file_id = working_set.add_file("b.nu".into(), b"de");
        let module_id = working_set.add_module("m", Block::new());
        assert_eq!(working_set.get_decl(decl_id).unwrap().name(), "second");
        assert_eq!(working_set.get_decl(0).unwrap().name(), "first");
        assert_eq!(working_set.get_block(block_id).unwrap().stmts, vec![Span::new(0, 3)]);
        assert_eq!(working_set.get_variable(var_id), Ok(&Type::Int));
        assert_eq!(working_set.num_blocks(), 2);
        (decl_id, block_id, var_id, file_id, module_id, working_set.render())
    };
    assert_eq!((decl_id, block_id, var_id, file_id, module_id), (1, 0, 4, 1, 1));
    assert_eq!(delta.num_decls(), 1);
    assert_eq!(delta.num_blocks(), 2);
    assert_eq!(delta.num_files(), 1);
    assert_eq!(engine_state.merge_delta(delta), Ok(()));
    assert_eq!(engine_state.get_decl(decl_id).unwrap().name(), "second");
    assert_eq!(engine_state.get_decl(0).unwrap().name(), "first");
    assert_eq!(engine_state.get_block(block_id).unwrap().stmts, vec![Span::new(0, 3)]);
    assert!(engine_state.get_block(module_id).unwrap().stmts.is_empty());
    assert_eq!(engine_state.get_var(var_id), Ok(&Type::Int));
    assert_eq!(engine_state.get_filename(file_id), "b.nu");
    assert_eq!(engine_state.get_file_source(file_id), "de");
    assert_eq!(engine_state.find_decl(b"second"), Some(decl_id));
    assert_eq!(engine_state.num_vars(), 5);
    assert_eq!(engine_state.num_blocks(), 2);

    let working_set = StateWorkingSet::new(&engine_state);
    assert_eq!(working_set.find_variable(b"$x"), Some(var_id));
    assert_eq!(working_set.find_module(b"m"), Some(module_id));
    assert_eq!(working_set.find_decl(b"first"), Some(0));
}

#[test]
fn inner_scope_shadows_and_exit_restores() {
    let engine_state = engine_with(&["foo"]);
    let mut working_set = StateWorkingSet::new(&engine_state);
    assert_eq!(working_set.find_decl(b"foo"), Some(0));
    let outer = working_set.add_decl(cmd("foo"));
    assert_eq!(working_set.find_decl(b"foo"), Some(outer));
    working_set.enter_scope();
    assert_eq!(working_set.find_decl(b"foo"), Some(outer));
    let inner = working_set.add_decl(cmd("foo"));
    assert_eq!((outer, inner), (1, 2));
    assert_eq!(working_set.find_decl(b"foo"), Some(inner));
    working_set.exit_scope();
    assert_eq!(working_set.find_decl(b"foo"), Some(outer));
    working_set.exit_scope();
    assert_eq!(working_set.find_decl(b"foo"), Some(0));
}

#[test]
fn variables_modules_and_aliases_shadow_by_scope() {
    let engine_state = EngineState::new();
    let mut working_set = StateWorkingSet::new(&engine_state);
    assert_eq!(working_set.add_variable(b"x".to_vec(), Type::Int), 4);
    assert_eq!(working_set.find_variable(b"$x"), Some(4));
    assert_eq!(working_set.find_variable(b"x"), None);
    assert_eq!(working_set.add_variable(b"$y".to_vec(), Type::String), 5);
    assert_eq!(working_set.find_variable(b"$y"), Some(5));
    assert_eq!(working_set.find_variable(b"$$y"), None);
    assert_eq!(working_set.add_variable(Vec::new(), Type::Bool), 6);
    assert_eq!(working_set.find_variable(b"$"), Some(6));
    working_set.add_alias(b"ll".to_vec(), vec![Span::new(0, 2), Span::new(3, 5)]);
    assert_eq!(working_set.add_module("m", Block::new()), 0);

    working_set.enter_scope();
    assert_eq!(working_set.add_variable(b"$x".to_vec(), Type::Bool), 7);
    working_set.add_alias(b"ll".to_vec(), vec![Span::new(7, 9)]);
    assert_eq!(working_set.add_module("m", Block::new()), 1);
    assert_eq!(working_set.find_variable(b"$x"), Some(7));
    assert_eq!(working_set.find_alias(b"ll"), Some(&[Span::new(7, 9)][..]));
    assert_eq!(working_set.find_module(b"m"), Some(1));
    working_set.exit_scope();

    assert_eq!(working_set.find_variable(b"$x"), Some(4));
    assert_eq!(working_set.find_alias(b"ll"), Some(&[Span::new(0, 2), Span::new(3, 5)][..]));
    assert_eq!(working_set.find_alias(b"la"), None);
    assert_eq!(working_set.find_module(b"m"), Some(0));
    assert_eq!(working_set.find_module(b"n"), None);
    assert_eq!(working_set.get_variable(7), Ok(&Type::Bool));
    assert_eq!(working_set.get_variable(8), Err(EngineError::MissingId(IdKind::Var, 8)));
}

#[test]
fn committed_aliases_are_found_through_a_working_set() {
    let mut engine_state = EngineState::new();
    let delta = {
        let mut working_set = StateWorkingSet::new(&engine_state);
        working_set.add_alias(b"ll".to_vec(), vec![Span::new(0, 2)]);
        working_set.render()
    };
    assert_eq!(engine_state.merge_delta(delta), Ok(()));
    let working_set = StateWorkingSet::new(&engine_state);
    assert_eq!(working_set.find_alias(b"ll"), Some(&[Span::new(0, 2)][..]));
}

#[test]
fn hiding_in_a_working_set_removes_the_innermost_binding() {
    let engine_state = engine_with(&["foo"]);
    let mut working_set = StateWorkingSet::new(&engine_state);
    let outer = working_set.add_decl(cmd("foo"));
    working_set.enter_scope();
    let inner = working_set.add_decl(cmd("foo"));
    assert_eq!(working_set.hide_decl(b"foo"), Some(inner));
    assert_eq!(working_set.find_decl(b"foo"), Some(outer));
    assert_eq!(working_set.hide_decl(b"foo"), Some(outer));
    assert_eq!(working_set.find_decl(b"foo"), Some(0));
    assert_eq!(working_set.hide_decl(b"foo"), Some(0));
    assert_eq!(working_set.find_decl(b"foo"), None);
    assert_eq!(working_set.hide_decl(b"foo"), None);
    working_set.exit_scope();
    assert_eq!(working_set.find_decl(b"foo"), Some(0));
    assert_eq!(working_set.num_decls(), 3);
}

#[test]
fn hidden_declaration_is_hidden_under_every_name() {
    let engine_state = engine_with(&["foo"]);
    let mut working_set = StateWorkingSet::new(&engine_state);
    working_set.activate_overlay(vec![(b"bar".to_vec(), 0)]);
    assert_eq!(working_set.find_decl(b"bar"), Some(0));
    working_set.enter_scope();
    assert_eq!(working_set.find_decl(b"bar"), Some(0));
    assert_eq!(working_set.hide_decl(b"foo"), Some(0));
    assert_eq!(working_set.find_decl(b"foo"), None);
    assert_eq!(working_set.find_decl(b"bar"), None);
    // The binding is still there, and hiding the name takes it away.
    assert_eq!(working_set.hide_decl(b"bar"), Some(0));
    assert_eq!(working_set.hide_decl(b"bar"), None);
    working_set.exit_scope();
    assert_eq!(working_set.find_decl(b"foo"), Some(0));
    assert_eq!(working_set.find_decl(b"bar"), None);
}

#[test]
fn pre_declaration_is_found_whatever_the_marks_say() {
    let engine_state = engine_with(&["foo"]);
    let mut working_set = StateWorkingSet::new(&engine_state);
    assert_eq!(working_set.add_predecl(cmd("foo")), None);
    assert_eq!(working_set.find_decl(b"foo"), Some(1));
    working_set.enter_scope();
    assert_eq!(working_set.hide_decl(b"foo"), Some(0));
    assert_eq!(working_set.find_decl(b"foo"), Some(1));
    assert_eq!(working_set.hide_decl(b"foo"), None);
    working_set.exit_scope();
    assert_eq!(working_set.merge_predecl(b"foo"), Some(1));
    assert_eq!(working_set.find_decl(b"foo"), Some(1));
}

#[test]
fn working_set_reads_what_the_committed_state_reads() {
    let mut engine_state = EngineState::new();
    engine_state.add_file("a.nu".into(), b"abc".to_vec());
    let working_set = StateWorkingSet::new(&engine_state);
    for (start, end) in [(0, 0), (0, 3), (1, 2), (3, 3), (2, 3)] {
        let span = Span::new(start, end);
        assert_eq!(working_set.get_span_contents(span), engine_state.get_span_contents(&span));
        assert_eq!(working_set.get_span_contents(span).unwrap().len(), end - start);
    }
    assert_eq!(working_set.get_span_contents(Span::new(3, 3)), Ok(&b""[..]));
    assert_eq!(
        working_set.get_span_contents(Span::new(3, 4)),
        Err(EngineError::SpanOutOfRange(Span::new(3, 4)))
    );
    assert_eq!(working_set.read_span(Span::new(3, 3), 0, 0).unwrap().span, Span::new(3, 3));

    let mut engine_state = EngineState::new();
    engine_state.add_file("a.nu".into(), b"abc".to_vec());
    engine_state.add_file("empty.nu".into(), vec![]);
    let working_set = StateWorkingSet::new(&engine_state);
    let last = working_set.get_file(1).unwrap().span();
    assert_eq!(last, Span::new(3, 3));
    assert_eq!(working_set.get_span_contents(last), Ok(&b""[..]));
}

#[test]
fn overlay_binds_and_shows_again() {
    let engine_state = engine_with(&["foo", "bar"]);
    let mut working_set = StateWorkingSet::new(&engine_state);
    assert_eq!(working_set.hide_decl(b"foo"), Some(0));
    assert_eq!(working_set.find_decl(b"foo"), None);
    working_set.activate_overlay(vec![(b"foo".to_vec(), 0), (b"baz".to_vec(), 1), (b"baz".to_vec(), 0)]);
    assert_eq!(working_set.find_decl(b"foo"), Some(0));
    assert_eq!(working_set.find_decl(b"baz"), Some(0));
    assert_eq!(working_set.find_decl(b"bar"), Some(1));
    let delta = working_set.render();
    let mut engine_state = engine_state.clone();
    assert_eq!(engine_state.merge_delta(delta), Ok(()));
    assert_eq!(engine_state.find_decl(b"foo"), Some(0));
    assert_eq!(engine_state.find_decl(b"baz"), Some(0));
}

#[test]
fn prefix_search_walks_inner_frames_first() {
    let engine_state = engine_with(&["str", "str downcase", "mkdir"]);
    assert_eq!(
        engine_state.find_commands_by_prefix(b"str"),
        vec![b"str".to_vec(), b"str downcase".to_vec()]
    );
    assert_eq!(engine_state.find_commands_by_prefix(b"strx"), Vec::<Vec<u8>>::new());
    let mut working_set = StateWorkingSet::new(&engine_state);
    working_set.add_decl(cmd("str kebab-case"));
    working_set.enter_scope();
    working_set.add_decl(cmd("string"));
    working_set.add_decl(cmd("ls"));
    assert_eq!(
        working_set.find_commands_by_prefix(b"str"),
        vec![
            b"string".to_vec(),
            b"str kebab-case".to_vec(),
            b"str".to_vec(),
            b"str downcase".to_vec()
        ]
    );
    assert!(working_set.contains_decl_partial_match(b"l"));
    assert!(working_set.contains_decl_partial_match(b"mk"));
    assert!(working_set.contains_decl_partial_match(b"str k"));
    assert!(working_set.contains_decl_partial_match(b""));
    assert!(!working_set.contains_decl_partial_match(b"cd"));
    assert!(!working_set.contains_decl_partial_match(b"mkdirs"));
}

#[test]
fn unbalanced_delta_is_refused() {
    let mut engine_state = engine_with(&["foo"]);
    let delta = {
        let mut working_set = StateWorkingSet::new(&engine_state);
        working_set.add_decl(cmd("bar"));
        working_set.enter_scope();
        working_set.render()
    };
    assert_eq!(engine_state.merge_delta(delta), Err(EngineError::UnbalancedScope));
    assert_eq!(engine_state.num_decls(), 1);
    assert_eq!(engine_state.find_decl(b"bar"), None);

    let delta = {
        let mut working_set = StateWorkingSet::new(&engine_state);
        working_set.exit_scope();
        working_set.render()
    };
    assert_eq!(engine_state.merge_delta(delta), Err(EngineError::UnbalancedScope));

    let mut delta = StateWorkingSet::new(&engine_state).render();
    delta.enter_scope();
    delta.exit_scope();
    assert_eq!(engine_state.merge_delta(delta), Ok(()));
}

#[test]
fn delta_of_another_state_is_not_accepted() {
    let mut engine_state = EngineState::new();
    let first = {
        let mut working_set = StateWorkingSet::new(&engine_state);
        working_set.add_file("a.nu".into(), b"abc");
        working_set.render()
    };
    let second = {
        let mut working_set = StateWorkingSet::new(&engine_state);
        working_set.add_file("b.nu".into(), b"de");
        working_set.render()
    };
    assert!(engine_state.accepts(&first));
    assert!(engine_state.accepts(&second));
    assert_eq!(engine_state.merge_delta(first), Ok(()));
    assert!(!engine_state.accepts(&second));

    let larger = engine_with(&["foo", "bar"]);
    let with_ids = {
        let mut working_set = StateWorkingSet::new(&larger);
        working_set.activate_overlay(vec![(b"baz".to_vec(), 1)]);
        working_set.render()
    };
    assert!(larger.accepts(&with_ids));
    assert!(!EngineState::new().accepts(&with_ids));
}

#[test]
fn working_set_shows_its_parts() {
    let mut engine_state = EngineState::new();
    engine_state.add_file("a.nu".into(), b"abc".to_vec());
    let mut working_set = StateWorkingSet::new(&engine_state);
    working_set.add_file("b.nu".into(), b"de");
    working_set.enter_scope();
    assert_eq!(working_set.permanent_state().num_files(), 1);
    assert_eq!(working_set.permanent_state().scope_depth(), 1);
    assert_eq!(working_set.delta().num_files(), 1);
    assert_eq!(working_set.delta().scope_depth(), 2);
    assert_eq!(working_set.delta().scope().len(), 2);
    assert!(engine_state.scope_frame(0).is_some());
    assert!(engine_state.scope_frame(1).is_none());
    let file = working_set.get_file(1).unwrap();
    assert_eq!(file.name, "b.nu");
    assert_eq!(file.contents, b"de".to_vec());
    assert_eq!(file.span(), Span::new(3, 5));
    assert_eq!(working_set.get_file(0).unwrap().span(), Span::new(0, 3));
    assert_eq!(
        working_set.get_file(2).err(),
        Some(EngineError::MissingId(IdKind::File, 2))
    );
    assert_eq!(
        engine_state.get_file(1).err(),
        Some(EngineError::MissingId(IdKind::File, 1))
    );
}

#[test]
fn committed_entries_cannot_be_changed() {
    let engine_state = engine_with(&["foo"]);
    let mut working_set = StateWorkingSet::new(&engine_state);
    assert_eq!(
        working_set.set_variable_type(2, Type::Int),
        Err(EngineError::MutatePermanent(IdKind::Var))
    );
    assert_eq!(
        working_set.set_variable_type(4, Type::Int),
        Err(EngineError::MissingId(IdKind::Var, 4))
    );
    let var_id = working_set.add_variable(b"$x".to_vec(), Type::Unknown);
    assert_eq!(working_set.set_variable_type(var_id, Type::Int), Ok(()));
    assert_eq!(working_set.get_variable(var_id), Ok(&Type::Int));
    assert_eq!(working_set.get_variable(2), Ok(&Type::Unknown));

    assert_eq!(
        working_set.get_decl_mut(0).err(),
        Some(EngineError::MutatePermanent(IdKind::Decl))
    );
    assert_eq!(
        working_set.get_decl_mut(1).err(),
        Some(EngineError::MissingId(IdKind::Decl, 1))
    );
    let decl_id = working_set.add_decl(cmd("bar"));
    working_set.get_decl_mut(decl_id).unwrap().block_id = Some(3);
    assert_eq!(working_set.get_decl(decl_id).unwrap().get_block_id(), Some(3));

    assert_eq!(
        working_set.get_block_mut(0).err(),
        Some(EngineError::MissingId(IdKind::Block, 0))
    );
    let block_id = working_set.add_block(Block::new());
    working_set.get_block_mut(block_id).unwrap().stmts.push(Span::new(1, 2));
    assert_eq!(working_set.get_block(block_id).unwrap().stmts, vec![Span::new(1, 2)]);
    let delta = working_set.render();
    let mut engine_state = engine_state.clone();
    assert_eq!(engine_state.merge_delta(delta), Ok(()));
    let mut working_set = StateWorkingSet::new(&engine_state);
    assert_eq!(
        working_set.get_block_mut(block_id).err(),
        Some(EngineError::MutatePermanent(IdKind::Block))
    );
    assert_eq!(
        working_set.get_decl(7).err(),
        Some(EngineError::MissingId(IdKind::Decl, 7))
    );
    assert_eq!(
        working_set.get_block(7).err(),
        Some(EngineError::MissingId(IdKind::Block, 7))
    );
}

#[test]
fn signatures_of_built_in_commands() {
    let mut engine_state = EngineState::new();
    let delta = {
        let mut working_set = StateWorkingSet::new(&engine_state);
        let mut first = Declaration::new(
            "first",
            Signature::build("first").required("n", SyntaxShape::Int, "how many"),
            "takes the first",
        );
        first.extra_usage = "more to say".to_string();
        working_set.add_decl(first);
        working_set.add_decl(user_cmd("mine", 0));
        working_set.add_decl(cmd("last"));
        working_set.render()
    };
    assert_eq!(engine_state.merge_delta(delta), Ok(()));
    let signatures = engine_state.get_signatures();
    assert_eq!(signatures.len(), 2);
    assert_eq!(signatures[0].name, "first");
    assert_eq!(signatures[0].usage, "takes the first");
    assert_eq!(signatures[0].extra_usage, "more to say");
    assert_eq!(signatures[0].required_positional.len(), 1);
    assert_eq!(signatures[0].required_positional[0].name, "n");
    assert_eq!(signatures[0].required_positional[0].shape, SyntaxShape::Int);
    assert_eq!(signatures[1].name, "last");
    assert_eq!(signatures[1].usage, "a command for tests");
    let with_examples = engine_state.get_signatures_with_examples();
    assert_eq!(with_examples.len(), 2);
    assert_eq!(with_examples[0].0, signatures[0]);
    assert_eq!(with_examples[1].0, signatures[1]);
    assert!(with_examples[0].1.is_empty());
}

#[test]
fn committed_frame_lists_what_was_merged() {
    let engine_state = engine_with(&["foo", "bar"]);
    let frame = engine_state.scope_frame(0).unwrap();
    assert_eq!(frame.decls.len(), 2);
    assert_eq!(frame.decls.get(b"foo"), Some(&0));
    assert_eq!(frame.decls.get(b"bar"), Some(&1));
    assert_eq!(frame.predecls.len(), 0);
    assert!(frame.visibility.is_id_visible(&0));
    assert!(frame.decls.all_below(2));
    assert!(!frame.decls.all_below(1));
}

#[test]
fn clone_does_not_see_later_changes() {
    let mut engine_state = engine_with(&["foo"]);
    let snapshot = engine_state.clone();
    engine_state.add_file("a.nu".into(), b"abc".to_vec());
    let delta = {
        let mut working_set = StateWorkingSet::new(&engine_state);
        working_set.add_decl(cmd("bar"));
        working_set.render()
    };
    assert_eq!(engine_state.merge_delta(delta), Ok(()));
    assert_eq!(snapshot.num_files(), 0);
    assert_eq!(snapshot.num_decls(), 1);
    assert_eq!(snapshot.find_decl(b"bar"), None);
    assert_eq!(snapshot.find_decl(b"foo"), Some(0));
    assert_eq!(engine_state.num_files(), 1);
    assert_eq!(engine_state.find_decl(b"bar"), Some(1));
}

#[test]
fn read_span_gives_line_and_column() {
    let mut engine_state = EngineState::new();
    engine_state.add_file("a.nu".into(), b"one\ntwo\n".to_vec());
    let mut working_set = StateWorkingSet::new(&engine_state);
    working_set.add_file("<cli>".into(), b"let x\nlet y = z\n");

    let reading = working_set.read_span(Span::new(4, 7), 0, 0).unwrap();
    assert_eq!(reading.data, b"two");
    assert_eq!(reading.name, Some("a.nu".to_string()));
    assert_eq!(reading.span, Span::new(4, 7));
    assert_eq!((reading.line, reading.column), (1, 0));

    let reading = working_set.read_span(Span::new(18, 19), 0, 0).unwrap();
    assert_eq!(reading.data, b"y");
    assert_eq!(reading.name, None);
    assert_eq!(reading.span, Span::new(18, 19));
    assert_eq!((reading.line, reading.column), (1, 4));

    let reading = working_set.read_span(Span::new(18, 19), 1, 0).unwrap();
    assert_eq!(reading.span.start, 8);
    assert_eq!(reading.line, 0);
    assert_eq!(reading.column, 0);
    assert_eq!(&reading.data[..5], b"let x");

    assert_eq!(
        working_set.read_span(Span::new(6, 10), 0, 0).err(),
        Some(EngineError::SpanOutOfRange(Span::new(6, 10)))
    );
    assert_eq!(
        working_set.read_span(Span::new(30, 31), 0, 0).err(),
        Some(EngineError::SpanOutOfRange(Span::new(30, 31)))
    );
    let reading = engine_state.read_span(Span::new(0, 3), 0, 0).unwrap();
    assert_eq!(reading.data, b"one");
    assert_eq!((reading.line, reading.column), (0, 0));
    assert_eq!(
        engine_state.read_span(Span::new(8, 9), 0, 0).err(),
        Some(EngineError::SpanOutOfRange(Span::new(8, 9)))
    );
}
