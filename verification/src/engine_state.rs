//! The committed engine state, the delta that a parse produces, and the
//! working set that lays the one over the other while the parse runs.

use vstd::prelude::*;
use vstd::slice::{slice_subrange, slice_to_vec};
use vstd::utf8::{decode_utf8, encode_utf8, valid_utf8};
use crate::bytes::byte_strings;
use crate::declaration::{
    builtin_signatures, builtin_signatures_with_examples, filled_signature, signatures_view,
    signed_examples_view, Block, Declaration,
};
use crate::error::{EngineError, IdKind};
use crate::files::{
    chain_end, files_chain, first_covering, lemma_chain_continued, lemma_chain_from_first,
    lemma_first_covering, lemma_first_covering_split, span_bytes, SourceFile,
};
use crate::id::{BlockId, DeclId, FileId, VarId, RESERVED_VARIABLES};
use crate::resolve::{
    commands_with_prefix, delta_decl, frame_has_prefix, frame_ids_within, frames_wf, ids_within,
    innermost_alias, innermost_decl_frame, innermost_id, lemma_delta_decl_within,
    lemma_innermost_alias_split, lemma_innermost_decl_frame, lemma_innermost_id_split,
    lemma_innermost_id_within, lemma_top_replaced, lemma_visible_decl_within, marks_after,
    outer_marks_added, some_decl_has_prefix, visible_decl, Namespace,
};
use crate::scope_frame::{
    activated, declares_prefix, folded, ids_below, ids_of, overlay_view, push_names_with_prefix,
    with_sigil, ScopeFrame, ScopeFrameView, SIGIL,
};
use crate::signature::{Example, Signature};
use crate::source::{read_file_span, spec_read_span, SourceReading};
use crate::span::Span;
use crate::tables::{
    block_entries, decl_entries, empty_tables, file_entries, frame_entries, table_back_mut,
    table_clone, table_get, table_len, table_push_back, var_entries, TableEntry,
};
use crate::text::{from_utf8_lossy, utf8_lossy};
use crate::ty::Type;
use crate::visibility::Visibility;

verus! {

/// The committed state of the engine: the tables of files, variable types,
/// declarations and blocks, and the stack of scope frames. An entry's ID is
/// its index in its table; tables only grow. A clone shares the tables with
/// the state it was made from until one of the two changes.
pub struct EngineState {
    files: im::Vector<SourceFile>,
    vars: im::Vector<Type>,
    decls: im::Vector<Declaration>,
    blocks: im::Vector<Block>,
    scope: im::Vector<ScopeFrame>,
}

impl EngineState {
    /// The registered files, by `FileId`.
    pub closed spec fn spec_files(&self) -> Seq<SourceFile> {
        file_entries(self.files)
    }

    /// The types of the variables, by `VarId`.
    pub closed spec fn spec_vars(&self) -> Seq<Type> {
        var_entries(self.vars)
    }

    /// The declarations, by `DeclId`.
    pub closed spec fn spec_decls(&self) -> Seq<Declaration> {
        decl_entries(self.decls)
    }

    /// The blocks, by `BlockId`.
    pub closed spec fn spec_blocks(&self) -> Seq<Block> {
        block_entries(self.blocks)
    }

    /// The scope frames, outermost first.
    pub closed spec fn spec_scope(&self) -> Seq<ScopeFrame> {
        frame_entries(self.scope)
    }

    /// The files lie one behind the other from offset 0 on, the reserved
    /// variables are there, there is a root scope frame, and every ID that a
    /// frame binds a name to is that of an entry.
    pub open spec fn wf(&self) -> bool {
        &&& files_chain(self.spec_files(), 0)
        &&& self.spec_vars().len() >= RESERVED_VARIABLES
        &&& self.spec_scope().len() >= 1
        &&& frames_wf(self.spec_scope())
        &&& ids_within(
            self.spec_scope(),
            self.spec_vars().len(),
            self.spec_decls().len(),
            self.spec_blocks().len(),
        )
    }

    /// The offset at which the next file will start.
    pub open spec fn spec_next_span_start(&self) -> int {
        chain_end(self.spec_files(), 0)
    }

    /// Whether `delta` can be merged: its files, if it has any, start where the
    /// files of this state end.
    pub open spec fn spec_accepts(&self, delta: &StateDelta) -> bool {
        &&& files_chain(delta.spec_files(), self.spec_next_span_start())
        &&& ids_within(
            delta.spec_scope(),
            self.spec_vars().len() + delta.spec_vars().len(),
            self.spec_decls().len() + delta.spec_decls().len(),
            self.spec_blocks().len() + delta.spec_blocks().len(),
        )
    }

    /// Whether this state is `before` with `delta` merged into it: the tables
    /// of `before` with the entries of the delta behind them, and the frames
    /// of `before` with the one frame of the delta folded into the innermost.
    pub open spec fn is_merge_of(&self, before: &EngineState, delta: &StateDelta) -> bool {
        &&& self.spec_files() == before.spec_files() + delta.spec_files()
        &&& self.spec_vars() == before.spec_vars() + delta.spec_vars()
        &&& self.spec_decls() == before.spec_decls() + delta.spec_decls()
        &&& self.spec_blocks() == before.spec_blocks() + delta.spec_blocks()
        &&& self.spec_scope().len() == before.spec_scope().len()
        &&& self.spec_scope().drop_last() == before.spec_scope().drop_last()
        &&& folded(before.spec_scope().last(), delta.spec_scope()[0], self.spec_scope().last())
    }

    /// Both states hold the same tables and frames.
    pub open spec fn same_as(&self, other: &EngineState) -> bool {
        &&& self.spec_files() == other.spec_files()
        &&& self.spec_vars() == other.spec_vars()
        &&& self.spec_decls() == other.spec_decls()
        &&& self.spec_blocks() == other.spec_blocks()
        &&& self.spec_scope() == other.spec_scope()
    }

    /// A state without files, declarations or blocks, with the reserved
    /// variables, all of unknown type, and one empty scope frame.
    pub fn new() -> (state: Self)
        ensures
            state.wf(),
            state.spec_files().len() == 0,
            state.spec_vars() == Seq::new(RESERVED_VARIABLES as nat, |i: int| Type::Unknown),
            state.spec_decls().len() == 0,
            state.spec_blocks().len() == 0,
            state.spec_scope().len() == 1,
            state.spec_scope()[0].is_empty(),
    {
        let tables = empty_tables();
        let mut state = EngineState {
            files: tables.files,
            vars: tables.vars,
            decls: tables.decls,
            blocks: tables.blocks,
            scope: tables.scope,
        };
        table_push_back(&mut state.vars, Type::Unknown);
        table_push_back(&mut state.vars, Type::Unknown);
        table_push_back(&mut state.vars, Type::Unknown);
        table_push_back(&mut state.vars, Type::Unknown);
        table_push_back(&mut state.scope, ScopeFrame::new());
        assert(state.spec_vars() =~= Seq::new(RESERVED_VARIABLES as nat, |i: int| Type::Unknown));
        state
    }

    /// Whether `delta` can be merged into this state.
    pub fn accepts(&self, delta: &StateDelta) -> (ok: bool)
        requires
            delta.wf(),
        ensures
            ok == self.spec_accepts(delta),
    {
        if delta.files.len() > 0 {
            let start = self.next_span_start();
            assert(delta.files@[0].wf());
            if delta.files[0].start != start {
                return false;
            }
        }
        let vars = self.num_vars().checked_add(delta.vars.len());
        let decls = self.num_decls().checked_add(delta.decls.len());
        let blocks = self.num_blocks().checked_add(delta.blocks.len());
        let ghost frames = delta.scope@;
        let mut i: usize = 0;
        while i < delta.scope.len()
            invariant
                frames == delta.scope@,
                frames_wf(frames),
                i <= frames.len(),
                vars == if self.spec_vars().len() + delta.spec_vars().len() <= usize::MAX {
                    Some((self.spec_vars().len() + delta.spec_vars().len()) as usize)
                } else {
                    None
                },
                decls == if self.spec_decls().len() + delta.spec_decls().len() <= usize::MAX {
                    Some((self.spec_decls().len() + delta.spec_decls().len()) as usize)
                } else {
                    None
                },
                blocks == if self.spec_blocks().len() + delta.spec_blocks().len() <= usize::MAX {
                    Some((self.spec_blocks().len() + delta.spec_blocks().len()) as usize)
                } else {
                    None
                },
                forall|j: int|
                    0 <= j < i ==> frame_ids_within(
                        #[trigger] frames[j],
                        self.spec_vars().len() + delta.spec_vars().len(),
                        self.spec_decls().len() + delta.spec_decls().len(),
                        self.spec_blocks().len() + delta.spec_blocks().len(),
                    ),
            decreases frames.len() - i,
        {
            let frame = &delta.scope[i];
            assert(frame.wf());
            let within = ids_below(&frame.vars, vars) && ids_below(&frame.predecls, decls)
                && ids_below(&frame.decls, decls) && ids_below(&frame.modules, blocks);
            if !within {
                assert(!frame_ids_within(
                    frames[i as int],
                    self.spec_vars().len() + delta.spec_vars().len(),
                    self.spec_decls().len() + delta.spec_decls().len(),
                    self.spec_blocks().len() + delta.spec_blocks().len(),
                ));
                return false;
            }
            i += 1;
        }
        true
    }

    /// Commits a delta: appends its files, variables, declarations and blocks
    /// to the tables, in order, and folds the bindings and marks of its one
    /// scope frame into the innermost frame of this state, where a binding or
    /// mark of the delta replaces one that was there. Pre-declarations are not
    /// taken over. A delta with no frame or with more than one is refused, and
    /// the state stays as it was.
    pub fn merge_delta(&mut self, delta: StateDelta) -> (merged: Result<(), EngineError>)
        requires
            old(self).wf(),
            delta.wf(),
            old(self).spec_accepts(&delta),
        ensures
            final(self).wf(),
            delta.spec_scope().len() != 1 ==> merged == Err::<(), EngineError>(
                EngineError::UnbalancedScope,
            ) && final(self).same_as(old(self)),
            delta.spec_scope().len() == 1 ==> merged == Ok::<(), EngineError>(())
                && final(self).is_merge_of(old(self), &delta),
    {
        let mut delta = delta;
        if delta.scope.len() != 1 {
            return Err(EngineError::UnbalancedScope);
        }
        let ghost before = *self;
        let ghost added = delta.files@;
        append_entries(&mut self.files, delta.files);
        append_entries(&mut self.vars, delta.vars);
        append_entries(&mut self.decls, delta.decls);
        append_entries(&mut self.blocks, delta.blocks);
        proof {
            lemma_chain_continued(before.spec_files(), added, 0);
        }
        let first = delta.scope.remove(0);
        assert(first.wf());
        match table_back_mut(&mut self.scope) {
            Some(last) => {
                assert(last.wf());
                last.decls.extend(first.decls);
                last.vars.extend(first.vars);
                last.aliases.extend(first.aliases);
                last.modules.extend(first.modules);
                last.visibility.merge_with(first.visibility);
            },
            None => {},
        }
        proof {
            let after = self.spec_scope();
            let n = before.spec_scope().len() as int;
            assert(after.drop_last() =~= before.spec_scope().drop_last());
            assert forall|i: int| 0 <= i < after.len() implies (#[trigger] after[i]).wf() by {
                if i < n - 1 {
                    assert(after[i] == before.spec_scope()[i]);
                }
            }
        }
        Ok(())
    }

    /// The number of registered files.
    pub fn num_files(&self) -> (n: usize)
        ensures
            n == self.spec_files().len(),
    {
        table_len(&self.files)
    }

    /// The number of variables.
    pub fn num_vars(&self) -> (n: usize)
        ensures
            n == self.spec_vars().len(),
    {
        table_len(&self.vars)
    }

    /// The number of declarations.
    pub fn num_decls(&self) -> (n: usize)
        ensures
            n == self.spec_decls().len(),
    {
        table_len(&self.decls)
    }

    /// The number of blocks.
    pub fn num_blocks(&self) -> (n: usize)
        ensures
            n == self.spec_blocks().len(),
    {
        table_len(&self.blocks)
    }

    /// The number of scope frames.
    pub fn scope_depth(&self) -> (n: usize)
        ensures
            n == self.spec_scope().len(),
    {
        table_len(&self.scope)
    }

    /// The declaration that `name` resolves to: that of the innermost frame
    /// which binds the name to a declaration that is not hidden there. A mark
    /// of an inner frame decides over one of an outer frame.
    pub fn find_decl(&self, name: &[u8]) -> (decl_id: Option<DeclId>)
        requires
            self.wf(),
        ensures
            decl_id == visible_decl(self.spec_scope(), name@, Map::empty()),
            decl_id matches Some(found) ==> found < self.spec_decls().len(),
    {
        proof {
            lemma_visible_decl_within(
                self.spec_scope(),
                name@,
                Map::empty(),
                self.spec_vars().len(),
                self.spec_decls().len(),
                self.spec_blocks().len(),
            );
        }
        self.find_decl_under(name, Visibility::new())
    }

    /// The declared names that begin with `name`, from the innermost frame
    /// outwards.
    pub fn find_commands_by_prefix(&self, name: &[u8]) -> (output: Vec<Vec<u8>>)
        requires
            self.wf(),
        ensures
            byte_strings(output@) == commands_with_prefix(self.spec_scope(), name@),
    {
        let ghost frames = self.spec_scope();
        let mut output: Vec<Vec<u8>> = Vec::new();
        let mut i = table_len(&self.scope);
        assert(frames.subrange(0, i as int) =~= frames);
        assert(byte_strings(output@) =~= Seq::<Seq<u8>>::empty());
        while i > 0
            invariant
                frames == self.spec_scope(),
                i <= frames.len(),
                commands_with_prefix(frames, name@) == byte_strings(output@) + commands_with_prefix(
                    frames.subrange(0, i as int),
                    name@,
                ),
            decreases i,
        {
            i -= 1;
            proof {
                let upto = frames.subrange(0, i + 1);
                assert(upto.last() == frames[i as int]);
                assert(upto.drop_last() =~= frames.subrange(0, i as int));
            }
            match table_get(&self.scope, i) {
                Some(scope) => {
                    push_names_with_prefix(&mut output, scope, name);
                },
                None => {},
            }
        }
        assert(commands_with_prefix(frames.subrange(0, 0), name@) =~= Seq::<Seq<u8>>::empty());
        output
    }

    /// The bytes that `span` covers. The span has to lie within the range of
    /// one file; among several such files the first one is read.
    pub fn get_span_contents(&self, span: &Span) -> (contents: Result<&[u8], EngineError>)
        requires
            self.wf(),
        ensures
            match first_covering(self.spec_files(), *span) {
                Some(i) => contents.is_ok() && contents.unwrap()@ == span_bytes(
                    self.spec_files()[i],
                    *span,
                ),
                None => contents == Err::<&[u8], EngineError>(EngineError::SpanOutOfRange(*span)),
            },
    {
        match self.covering_file(span) {
            Some(file) => Ok(
                slice_subrange(
                    file.contents.as_slice(),
                    span.start - file.start,
                    span.end - file.start,
                ),
            ),
            None => Err(EngineError::SpanOutOfRange(*span)),
        }
    }

    /// Reads `span` for a diagnostic, with lines of context around it: the
    /// bytes, the name of the first file that covers the span, and the line
    /// and column at which the bytes begin in that file.
    pub fn read_span(
        &self,
        span: Span,
        context_lines_before: usize,
        context_lines_after: usize,
    ) -> (result: Result<SourceReading<'_>, EngineError>)
        requires
            self.wf(),
        ensures
            spec_read_span(
                result,
                self.spec_files(),
                span,
                context_lines_before,
                context_lines_after,
            ),
    {
        match self.covering_file(&span) {
            Some(file) => Ok(
                read_file_span(file, span, context_lines_before, context_lines_after),
            ),
            None => Err(EngineError::SpanOutOfRange(span)),
        }
    }

    /// The scope frame at `index`, counted from the outermost.
    pub fn scope_frame(&self, index: usize) -> (frame: Option<&ScopeFrame>)
        ensures
            frame == if index < self.spec_scope().len() {
                Some(&self.spec_scope()[index as int])
            } else {
                None
            },
    {
        table_get(&self.scope, index)
    }

    /// The file `file_id`.
    pub fn get_file(&self, file_id: FileId) -> (file: Result<&SourceFile, EngineError>)
        ensures
            file_id < self.spec_files().len() ==> file == Ok::<&SourceFile, EngineError>(
                &self.spec_files()[file_id as int],
            ),
            file_id >= self.spec_files().len() ==> file == Err::<&SourceFile, EngineError>(
                EngineError::MissingId(IdKind::File, file_id),
            ),
    {
        match table_get(&self.files, file_id) {
            Some(file) => Ok(file),
            None => Err(EngineError::MissingId(IdKind::File, file_id)),
        }
    }

    /// The type of the variable `var_id`.
    pub fn get_var(&self, var_id: VarId) -> (ty: Result<&Type, EngineError>)
        ensures
            var_id < self.spec_vars().len() ==> ty == Ok::<&Type, EngineError>(
                &self.spec_vars()[var_id as int],
            ),
            var_id >= self.spec_vars().len() ==> ty == Err::<&Type, EngineError>(
                EngineError::MissingId(IdKind::Var, var_id),
            ),
    {
        match table_get(&self.vars, var_id) {
            Some(ty) => Ok(ty),
            None => Err(EngineError::MissingId(IdKind::Var, var_id)),
        }
    }

    /// The declaration `decl_id`.
    pub fn get_decl(&self, decl_id: DeclId) -> (decl: Result<&Declaration, EngineError>)
        ensures
            decl_id < self.spec_decls().len() ==> decl == Ok::<&Declaration, EngineError>(
                &self.spec_decls()[decl_id as int],
            ),
            decl_id >= self.spec_decls().len() ==> decl == Err::<&Declaration, EngineError>(
                EngineError::MissingId(IdKind::Decl, decl_id),
            ),
    {
        match table_get(&self.decls, decl_id) {
            Some(decl) => Ok(decl),
            None => Err(EngineError::MissingId(IdKind::Decl, decl_id)),
        }
    }

    /// The signatures of the built-in commands, in the order of their IDs,
    /// each with the help texts of its declaration filled in.
    pub fn get_signatures(&self) -> (output: Vec<Signature>)
        ensures
            signatures_view(output@) == builtin_signatures(self.spec_decls()),
    {
        let ghost decls = self.spec_decls();
        let n = table_len(&self.decls);
        let mut output: Vec<Signature> = Vec::new();
        let mut i: usize = 0;
        assert(signatures_view(output@) =~= builtin_signatures(decls.subrange(0, 0)));
        while i < n
            invariant
                decls == self.spec_decls(),
                n == decls.len(),
                i <= n,
                signatures_view(output@) == builtin_signatures(decls.subrange(0, i as int)),
            decreases n - i,
        {
            proof {
                let upto = decls.subrange(0, i + 1);
                assert(upto.drop_last() =~= decls.subrange(0, i as int));
                assert(upto.last() == decls[i as int]);
            }
            match table_get(&self.decls, i) {
                Some(decl) => {
                    if decl.get_block_id().is_none() {
                        let mut signature = decl.signature();
                        signature.usage = decl.usage().to_owned();
                        signature.extra_usage = decl.extra_usage().to_owned();
                        let ghost before = signatures_view(output@);
                        output.push(signature);
                        assert(signatures_view(output@) =~= before.push(filled_signature(decl@)));
                    }
                },
                None => {},
            }
            i += 1;
        }
        assert(decls.subrange(0, n as int) =~= decls);
        output
    }

    /// The signatures of the built-in commands as `get_signatures` gives
    /// them, each with the examples of its declaration.
    pub fn get_signatures_with_examples(&self) -> (output: Vec<(Signature, Vec<Example>)>)
        ensures
            signed_examples_view(output@) == builtin_signatures_with_examples(self.spec_decls()),
    {
        let ghost decls = self.spec_decls();
        let n = table_len(&self.decls);
        let mut output: Vec<(Signature, Vec<Example>)> = Vec::new();
        let mut i: usize = 0;
        assert(signed_examples_view(output@) =~= builtin_signatures_with_examples(
            decls.subrange(0, 0),
        ));
        while i < n
            invariant
                decls == self.spec_decls(),
                n == decls.len(),
                i <= n,
                signed_examples_view(output@) == builtin_signatures_with_examples(
                    decls.subrange(0, i as int),
                ),
            decreases n - i,
        {
            proof {
                let upto = decls.subrange(0, i + 1);
                assert(upto.drop_last() =~= decls.subrange(0, i as int));
                assert(upto.last() == decls[i as int]);
            }
            match table_get(&self.decls, i) {
                Some(decl) => {
                    if decl.get_block_id().is_none() {
                        let mut signature = decl.signature();
                        signature.usage = decl.usage().to_owned();
                        signature.extra_usage = decl.extra_usage().to_owned();
                        let ghost before = signed_examples_view(output@);
                        output.push((signature, decl.examples()));
                        assert(signed_examples_view(output@) =~= before.push(
                            (filled_signature(decl@), decl@.examples),
                        ));
                    }
                },
                None => {},
            }
            i += 1;
        }
        assert(decls.subrange(0, n as int) =~= decls);
        output
    }

    /// The block `block_id`.
    pub fn get_block(&self, block_id: BlockId) -> (block: Result<&Block, EngineError>)
        ensures
            block_id < self.spec_blocks().len() ==> block == Ok::<&Block, EngineError>(
                &self.spec_blocks()[block_id as int],
            ),
            block_id >= self.spec_blocks().len() ==> block == Err::<&Block, EngineError>(
                EngineError::MissingId(IdKind::Block, block_id),
            ),
    {
        match table_get(&self.blocks, block_id) {
            Some(block) => Ok(block),
            None => Err(EngineError::MissingId(IdKind::Block, block_id)),
        }
    }

    /// The offset at which the next file will start: the end of the last
    /// file's range, or 0 where no file is registered.
    pub fn next_span_start(&self) -> (start: usize)
        ensures
            start == self.spec_next_span_start(),
    {
        let n = table_len(&self.files);
        if n == 0 {
            return 0;
        }
        match table_get(&self.files, n - 1) {
            Some(last) => last.end,
            None => 0,
        }
    }

    /// The name, start and end of every registered file, by `FileId`.
    pub fn files(&self) -> (list: Vec<(String, usize, usize)>)
        ensures
            list@.len() == self.spec_files().len(),
            forall|i: int|
                0 <= i < list@.len() ==> (#[trigger] list@[i]).0@ == self.spec_files()[i].name@
                    && list@[i].1 == self.spec_files()[i].start && list@[i].2
                    == self.spec_files()[i].end,
    {
        let n = table_len(&self.files);
        let mut list: Vec<(String, usize, usize)> = Vec::new();
        let mut i: usize = 0;
        while i < n
            invariant
                n == self.spec_files().len(),
                i <= n,
                list@.len() == i,
                forall|k: int|
                    0 <= k < i ==> (#[trigger] list@[k]).0@ == self.spec_files()[k].name@
                        && list@[k].1 == self.spec_files()[k].start && list@[k].2
                        == self.spec_files()[k].end,
            decreases n - i,
        {
            match table_get(&self.files, i) {
                Some(file) => {
                    list.push((file.name.clone(), file.start, file.end));
                },
                None => {},
            }
            i += 1;
        }
        list
    }

    /// The name of the file `file_id`; `<unknown>` where there is no such file.
    pub fn get_filename(&self, file_id: FileId) -> (name: String)
        ensures
            file_id < self.spec_files().len() ==> name@ == self.spec_files()[file_id as int].name@,
            file_id >= self.spec_files().len() ==> name@ == "<unknown>"@,
    {
        match table_get(&self.files, file_id) {
            Some(file) => file.name.clone(),
            None => "<unknown>".to_owned(),
        }
    }

    /// The text of the file `file_id`, bytes that are not UTF-8 replaced;
    /// `<unknown>` where there is no such file.
    pub fn get_file_source(&self, file_id: FileId) -> (source: String)
        ensures
            file_id < self.spec_files().len() ==> source@ == utf8_lossy(
                self.spec_files()[file_id as int].contents@,
            ),
            file_id < self.spec_files().len() && valid_utf8(
                self.spec_files()[file_id as int].contents@,
            ) ==> source@ == decode_utf8(self.spec_files()[file_id as int].contents@),
            file_id < self.spec_files().len() && self.spec_files()[file_id as int].contents@.len()
                == 0 ==> source@ == Seq::<char>::empty(),
            file_id >= self.spec_files().len() ==> source@ == "<unknown>"@,
    {
        match table_get(&self.files, file_id) {
            Some(file) => from_utf8_lossy(file.contents.as_slice()),
            None => "<unknown>".to_owned(),
        }
    }

    /// Registers a file and returns its ID. The file's range starts where the
    /// range of the last file ends.
    pub fn add_file(&mut self, filename: String, contents: Vec<u8>) -> (file_id: FileId)
        requires
            old(self).wf(),
            old(self).spec_next_span_start() + contents@.len() <= usize::MAX,
        ensures
            final(self).wf(),
            file_id == old(self).spec_files().len(),
            final(self).spec_files() == old(self).spec_files().push(
                SourceFile {
                    name: filename,
                    contents,
                    start: old(self).spec_next_span_start() as usize,
                    end: (old(self).spec_next_span_start() + contents@.len()) as usize,
                },
            ),
            final(self).spec_vars() == old(self).spec_vars(),
            final(self).spec_decls() == old(self).spec_decls(),
            final(self).spec_blocks() == old(self).spec_blocks(),
            final(self).spec_scope() == old(self).spec_scope(),
            final(self).spec_next_span_start() == old(self).spec_next_span_start()
                + contents@.len(),
    {
        let next_span_start = self.next_span_start();
        let next_span_end = next_span_start + contents.len();
        table_push_back(
            &mut self.files,
            SourceFile { name: filename, contents, start: next_span_start, end: next_span_end },
        );
        self.num_files() - 1
    }

    /// The declaration that `name` resolves to, where the scopes inside this
    /// state's stack have left the marks of `visibility`.
    fn find_decl_under(&self, name: &[u8], visibility: Visibility) -> (decl_id: Option<DeclId>)
        requires
            self.wf(),
        ensures
            decl_id == visible_decl(self.spec_scope(), name@, visibility@),
    {
        let ghost frames = self.spec_scope();
        let ghost gathered = visibility@;
        let mut marks = visibility;
        let mut i = table_len(&self.scope);
        assert(frames.subrange(0, i as int) =~= frames);
        while i > 0
            invariant
                frames == self.spec_scope(),
                gathered == visibility@,
                frames_wf(frames),
                i <= frames.len(),
                visible_decl(frames, name@, gathered) == visible_decl(
                    frames.subrange(0, i as int),
                    name@,
                    marks@,
                ),
            decreases i,
        {
            i -= 1;
            proof {
                let upto = frames.subrange(0, i + 1);
                assert(upto.last() == frames[i as int]);
                assert(upto.drop_last() =~= frames.subrange(0, i as int));
                assert(frames[i as int].wf());
            }
            match table_get(&self.scope, i) {
                Some(scope) => {
                    let ghost inner = marks@;
                    marks.append(&scope.visibility);
                    assert(marks@ == outer_marks_added(inner, scope.visibility@));
                    match scope.decls.get(name) {
                        Some(decl_id) => {
                            if marks.is_id_visible(decl_id) {
                                assert(scope.decls@.contains_key(name@));
                                assert(visible_decl(
                                    frames.subrange(0, i + 1),
                                    name@,
                                    inner,
                                ) == Some(*decl_id));
                                return Some(*decl_id);
                            }
                        },
                        None => {},
                    }
                },
                None => {},
            }
        }
        None
    }

    /// The ID that `name` is bound to in the innermost frame that binds it
    /// in the given namespace.
    fn find_id(&self, namespace: Namespace, name: &[u8]) -> (id: Option<usize>)
        requires
            self.wf(),
        ensures
            id == innermost_id(self.spec_scope(), namespace, name@),
    {
        let ghost frames = self.spec_scope();
        let mut i = table_len(&self.scope);
        assert(frames.subrange(0, i as int) =~= frames);
        while i > 0
            invariant
                frames == self.spec_scope(),
                frames_wf(frames),
                i <= frames.len(),
                innermost_id(frames, namespace, name@) == innermost_id(
                    frames.subrange(0, i as int),
                    namespace,
                    name@,
                ),
            decreases i,
        {
            i -= 1;
            proof {
                let upto = frames.subrange(0, i + 1);
                assert(upto.last() == frames[i as int]);
                assert(upto.drop_last() =~= frames.subrange(0, i as int));
                assert(frames[i as int].wf());
            }
            match table_get(&self.scope, i) {
                Some(scope) => {
                    match ids_of(scope, namespace).get(name) {
                        Some(id) => {
                            return Some(*id);
                        },
                        None => {},
                    }
                },
                None => {},
            }
        }
        None
    }

    /// The replacement that `name` stands for in the innermost frame that has
    /// it as an alias.
    fn find_alias(&self, name: &[u8]) -> (spans: Option<&Vec<Span>>)
        requires
            self.wf(),
        ensures
            spans == match innermost_alias(self.spec_scope(), name@) {
                Some(found) => Some(&found),
                None => None,
            },
    {
        let ghost frames = self.spec_scope();
        let mut i = table_len(&self.scope);
        assert(frames.subrange(0, i as int) =~= frames);
        while i > 0
            invariant
                frames == self.spec_scope(),
                frames_wf(frames),
                i <= frames.len(),
                innermost_alias(frames, name@) == innermost_alias(
                    frames.subrange(0, i as int),
                    name@,
                ),
            decreases i,
        {
            i -= 1;
            proof {
                let upto = frames.subrange(0, i + 1);
                assert(upto.last() == frames[i as int]);
                assert(upto.drop_last() =~= frames.subrange(0, i as int));
                assert(frames[i as int].wf());
            }
            match table_get(&self.scope, i) {
                Some(scope) => {
                    match scope.aliases.get(name) {
                        Some(found) => {
                            return Some(found);
                        },
                        None => {},
                    }
                },
                None => {},
            }
        }
        None
    }

    /// Whether some frame declares a name that begins with `prefix`.
    fn has_decl_with_prefix(&self, prefix: &[u8]) -> (found: bool)
        ensures
            found == some_decl_has_prefix(self.spec_scope(), prefix@),
    {
        let ghost frames = self.spec_scope();
        let mut i = table_len(&self.scope);
        while i > 0
            invariant
                frames == self.spec_scope(),
                i <= frames.len(),
                forall|j: int|
                    i <= j < frames.len() ==> !frame_has_prefix(#[trigger] frames[j], prefix@),
            decreases i,
        {
            i -= 1;
            match table_get(&self.scope, i) {
                Some(scope) => {
                    if declares_prefix(scope, prefix) {
                        assert(frame_has_prefix(frames[i as int], prefix@));
                        return true;
                    }
                },
                None => {},
            }
        }
        false
    }

    /// The first file whose range holds the whole of `span`.
    fn covering_file(&self, span: &Span) -> (file: Option<&SourceFile>)
        requires
            self.wf(),
        ensures
            file == match first_covering(self.spec_files(), *span) {
                Some(i) => Some(&self.spec_files()[i]),
                None => None,
            },
            file matches Some(found) ==> found.wf() && found.covers(*span),
    {
        let ghost files = self.spec_files();
        let n = table_len(&self.files);
        let mut i: usize = 0;
        while i < n
            invariant
                files == self.spec_files(),
                files_chain(files, 0),
                n == files.len(),
                i <= n,
                forall|j: int| 0 <= j < i ==> !(#[trigger] files[j]).covers(*span),
            decreases n - i,
        {
            match table_get(&self.files, i) {
                Some(file) => {
                    if span.start >= file.start && span.start <= span.end && span.end <= file.end {
                        proof {
                            lemma_first_covering(files, *span);
                            assert(files[i as int].covers(*span));
                        }
                        return Some(file);
                    }
                },
                None => {},
            }
            i += 1;
        }
        proof {
            lemma_first_covering(files, *span);
        }
        None
    }

    /// Reads the length of every table. A length that was read is known to
    /// fit a machine integer.
    fn note_table_lengths(&self)
        ensures
            self.spec_files().len() <= usize::MAX,
            self.spec_vars().len() <= usize::MAX,
            self.spec_decls().len() <= usize::MAX,
            self.spec_blocks().len() <= usize::MAX,
    {
        let _files = table_len(&self.files);
        let _vars = table_len(&self.vars);
        let _decls = table_len(&self.decls);
        let _blocks = table_len(&self.blocks);
    }
}

impl Clone for EngineState {
    /// A state with the same tables and frames. The tables are shared, not copied.
    fn clone(&self) -> (copy: Self)
        ensures
            copy.spec_files() == self.spec_files(),
            copy.spec_vars() == self.spec_vars(),
            copy.spec_decls() == self.spec_decls(),
            copy.spec_blocks() == self.spec_blocks(),
            copy.spec_scope() == self.spec_scope(),
    {
        EngineState {
            files: table_clone(&self.files),
            vars: table_clone(&self.vars),
            decls: table_clone(&self.decls),
            blocks: table_clone(&self.blocks),
            scope: table_clone(&self.scope),
        }
    }
}

impl Default for EngineState {
    fn default() -> (state: Self)
        ensures
            state.wf(),
            state.spec_files().len() == 0,
            state.spec_decls().len() == 0,
            state.spec_blocks().len() == 0,
            state.spec_vars().len() == RESERVED_VARIABLES,
            state.spec_scope().len() == 1,
            state.spec_scope()[0].is_empty(),
    {
        Self::new()
    }
}

/// What a parse has added to an engine state and not yet committed: further
/// files, variables, declarations and blocks, and the scope frames that the
/// parse has opened.
pub struct StateDelta {
    files: Vec<SourceFile>,
    vars: Vec<Type>,
    decls: Vec<Declaration>,
    blocks: Vec<Block>,
    scope: Vec<ScopeFrame>,
}

impl StateDelta {
    /// The added files, in the order in which they were added.
    pub closed spec fn spec_files(&self) -> Seq<SourceFile> {
        self.files@
    }

    /// The types of the added variables.
    pub closed spec fn spec_vars(&self) -> Seq<Type> {
        self.vars@
    }

    /// The added declarations.
    pub closed spec fn spec_decls(&self) -> Seq<Declaration> {
        self.decls@
    }

    /// The added blocks.
    pub closed spec fn spec_blocks(&self) -> Seq<Block> {
        self.blocks@
    }

    /// The open scope frames, outermost first.
    pub closed spec fn spec_scope(&self) -> Seq<ScopeFrame> {
        self.scope@
    }

    /// Every frame is well formed, and the files follow one another.
    pub open spec fn wf(&self) -> bool {
        &&& frames_wf(self.spec_scope())
        &&& self.spec_files().len() > 0 ==> files_chain(
            self.spec_files(),
            self.spec_files()[0].start as int,
        )
    }

    /// The deltas hold the same entries in every table but that of `kind`.
    pub open spec fn same_tables_but(&self, other: &StateDelta, kind: IdKind) -> bool {
        &&& kind != IdKind::File ==> self.spec_files() == other.spec_files()
        &&& kind != IdKind::Var ==> self.spec_vars() == other.spec_vars()
        &&& kind != IdKind::Decl ==> self.spec_decls() == other.spec_decls()
        &&& kind != IdKind::Block ==> self.spec_blocks() == other.spec_blocks()
    }

    /// Both deltas hold the same files, variables, declarations and blocks.
    pub open spec fn same_tables(&self, other: &StateDelta) -> bool {
        &&& self.spec_files() == other.spec_files()
        &&& self.spec_vars() == other.spec_vars()
        &&& self.spec_decls() == other.spec_decls()
        &&& self.spec_blocks() == other.spec_blocks()
    }

    /// The number of added files.
    pub fn num_files(&self) -> (n: usize)
        ensures
            n == self.spec_files().len(),
    {
        self.files.len()
    }

    /// The number of added declarations.
    pub fn num_decls(&self) -> (n: usize)
        ensures
            n == self.spec_decls().len(),
    {
        self.decls.len()
    }

    /// The number of added blocks.
    pub fn num_blocks(&self) -> (n: usize)
        ensures
            n == self.spec_blocks().len(),
    {
        self.blocks.len()
    }

    /// The number of open scope frames.
    pub fn scope_depth(&self) -> (n: usize)
        ensures
            n == self.spec_scope().len(),
    {
        self.scope.len()
    }

    /// The open scope frames, outermost first.
    pub fn scope(&self) -> (frames: &Vec<ScopeFrame>)
        ensures
            frames@ == self.spec_scope(),
    {
        &self.scope
    }

    /// Opens a scope: puts an empty frame on the stack.
    pub fn enter_scope(&mut self)
        ensures
            final(self).spec_scope().len() == old(self).spec_scope().len() + 1,
            final(self).spec_scope().drop_last() == old(self).spec_scope(),
            final(self).spec_scope().last().wf(),
            final(self).spec_scope().last().is_empty(),
            final(self).same_tables(old(self)),
    {
        self.scope.push(ScopeFrame::new());
        assert(self.scope@.drop_last() =~= old(self).scope@);
    }

    /// Closes the innermost scope: takes its frame off the stack.
    pub fn exit_scope(&mut self)
        requires
            old(self).spec_scope().len() > 0,
        ensures
            final(self).spec_scope() == old(self).spec_scope().drop_last(),
            final(self).same_tables(old(self)),
    {
        self.scope.pop();
    }

    /// The declaration that `name` resolves to among the frames of the delta,
    /// and with it the marks gathered on the way: where the name resolves to
    /// nothing here, they are the marks of all frames.
    fn find_own_decl(&self, name: &[u8]) -> (found: (Option<DeclId>, Visibility))
        requires
            frames_wf(self.spec_scope()),
        ensures
            found.0 == delta_decl(self.spec_scope(), name@, Map::empty()),
            found.0.is_none() ==> found.1@ == marks_after(self.spec_scope(), Map::empty()),
    {
        let ghost frames = self.scope@;
        let ghost none = Map::<DeclId, bool>::empty();
        let mut marks = Visibility::new();
        let mut i = self.scope.len();
        assert(frames.subrange(0, i as int) =~= frames);
        while i > 0
            invariant
                frames == self.scope@,
                none == Map::<DeclId, bool>::empty(),
                frames_wf(frames),
                i <= frames.len(),
                delta_decl(frames, name@, none) == delta_decl(
                    frames.subrange(0, i as int),
                    name@,
                    marks@,
                ),
                marks_after(frames, none) == marks_after(frames.subrange(0, i as int), marks@),
            decreases i,
        {
            i -= 1;
            proof {
                let upto = frames.subrange(0, i + 1);
                assert(upto.last() == frames[i as int]);
                assert(upto.drop_last() =~= frames.subrange(0, i as int));
                assert(frames[i as int].wf());
            }
            marks.append(&self.scope[i].visibility);
            match self.scope[i].predecls.get(name) {
                Some(decl_id) => {
                    return (Some(*decl_id), marks);
                },
                None => {},
            }
            match self.scope[i].decls.get(name) {
                Some(decl_id) => {
                    if marks.is_id_visible(decl_id) {
                        return (Some(*decl_id), marks);
                    }
                },
                None => {},
            }
        }
        (None, marks)
    }

    /// The index of the innermost frame that declares `name`.
    fn find_decl_frame(&self, name: &[u8]) -> (index: Option<usize>)
        requires
            frames_wf(self.spec_scope()),
        ensures
            match index {
                Some(k) => innermost_decl_frame(self.spec_scope(), name@) == Some(k as int),
                None => innermost_decl_frame(self.spec_scope(), name@).is_none(),
            },
    {
        let ghost frames = self.scope@;
        let mut i = self.scope.len();
        assert(frames.subrange(0, i as int) =~= frames);
        while i > 0
            invariant
                frames == self.scope@,
                frames_wf(frames),
                i <= frames.len(),
                innermost_decl_frame(frames, name@) == innermost_decl_frame(
                    frames.subrange(0, i as int),
                    name@,
                ),
            decreases i,
        {
            i -= 1;
            proof {
                let upto = frames.subrange(0, i + 1);
                assert(upto.last() == frames[i as int]);
                assert(upto.drop_last() =~= frames.subrange(0, i as int));
                assert(frames[i as int].wf());
            }
            if self.scope[i].decls.contains_key(name) {
                return Some(i);
            }
        }
        None
    }

    /// The marks gathered by walking the frames from the innermost outwards.
    fn gathered_marks(&self) -> (marks: Visibility)
        ensures
            marks@ == marks_after(self.spec_scope(), Map::empty()),
    {
        let ghost frames = self.scope@;
        let mut marks = Visibility::new();
        let mut i = self.scope.len();
        assert(frames.subrange(0, i as int) =~= frames);
        while i > 0
            invariant
                frames == self.scope@,
                i <= frames.len(),
                marks_after(frames, Map::empty()) == marks_after(
                    frames.subrange(0, i as int),
                    marks@,
                ),
            decreases i,
        {
            i -= 1;
            proof {
                let upto = frames.subrange(0, i + 1);
                assert(upto.last() == frames[i as int]);
                assert(upto.drop_last() =~= frames.subrange(0, i as int));
            }
            marks.append(&self.scope[i].visibility);
        }
        marks
    }

    /// The ID that `name` is bound to in the innermost frame that binds it
    /// in the given namespace.
    fn find_id(&self, namespace: Namespace, name: &[u8]) -> (id: Option<usize>)
        requires
            frames_wf(self.spec_scope()),
        ensures
            id == innermost_id(self.spec_scope(), namespace, name@),
    {
        let ghost frames = self.scope@;
        let mut i = self.scope.len();
        assert(frames.subrange(0, i as int) =~= frames);
        while i > 0
            invariant
                frames == self.scope@,
                frames_wf(frames),
                i <= frames.len(),
                innermost_id(frames, namespace, name@) == innermost_id(
                    frames.subrange(0, i as int),
                    namespace,
                    name@,
                ),
            decreases i,
        {
            i -= 1;
            proof {
                let upto = frames.subrange(0, i + 1);
                assert(upto.last() == frames[i as int]);
                assert(upto.drop_last() =~= frames.subrange(0, i as int));
                assert(frames[i as int].wf());
            }
            match ids_of(&self.scope[i], namespace).get(name) {
                Some(id) => {
                    return Some(*id);
                },
                None => {},
            }
        }
        None
    }

    /// The replacement that `name` stands for in the innermost frame that has
    /// it as an alias.
    fn find_alias(&self, name: &[u8]) -> (spans: Option<&Vec<Span>>)
        requires
            frames_wf(self.spec_scope()),
        ensures
            spans == match innermost_alias(self.spec_scope(), name@) {
                Some(found) => Some(&found),
                None => None,
            },
    {
        let ghost frames = self.scope@;
        let mut i = self.scope.len();
        assert(frames.subrange(0, i as int) =~= frames);
        while i > 0
            invariant
                frames == self.scope@,
                frames_wf(frames),
                i <= frames.len(),
                innermost_alias(frames, name@) == innermost_alias(
                    frames.subrange(0, i as int),
                    name@,
                ),
            decreases i,
        {
            i -= 1;
            proof {
                let upto = frames.subrange(0, i + 1);
                assert(upto.last() == frames[i as int]);
                assert(upto.drop_last() =~= frames.subrange(0, i as int));
                assert(frames[i as int].wf());
            }
            match self.scope[i].aliases.get(name) {
                Some(found) => {
                    return Some(found);
                },
                None => {},
            }
        }
        None
    }

    /// Whether some frame declares a name that begins with `prefix`.
    fn has_decl_with_prefix(&self, prefix: &[u8]) -> (found: bool)
        ensures
            found == some_decl_has_prefix(self.spec_scope(), prefix@),
    {
        let ghost frames = self.scope@;
        let mut i = self.scope.len();
        while i > 0
            invariant
                frames == self.scope@,
                i <= frames.len(),
                forall|j: int|
                    i <= j < frames.len() ==> !frame_has_prefix(#[trigger] frames[j], prefix@),
            decreases i,
        {
            i -= 1;
            if declares_prefix(&self.scope[i], prefix) {
                assert(frame_has_prefix(frames[i as int], prefix@));
                return true;
            }
        }
        false
    }

    /// The declared names that begin with `prefix`, from the innermost frame
    /// outwards.
    fn find_commands_by_prefix(&self, prefix: &[u8]) -> (output: Vec<Vec<u8>>)
        ensures
            byte_strings(output@) == commands_with_prefix(self.spec_scope(), prefix@),
    {
        let ghost frames = self.scope@;
        let mut output: Vec<Vec<u8>> = Vec::new();
        let mut i = self.scope.len();
        assert(frames.subrange(0, i as int) =~= frames);
        assert(byte_strings(output@) =~= Seq::<Seq<u8>>::empty());
        while i > 0
            invariant
                frames == self.scope@,
                i <= frames.len(),
                commands_with_prefix(frames, prefix@) == byte_strings(output@)
                    + commands_with_prefix(frames.subrange(0, i as int), prefix@),
            decreases i,
        {
            i -= 1;
            proof {
                let upto = frames.subrange(0, i + 1);
                assert(upto.last() == frames[i as int]);
                assert(upto.drop_last() =~= frames.subrange(0, i as int));
            }
            push_names_with_prefix(&mut output, &self.scope[i], prefix);
        }
        assert(commands_with_prefix(frames.subrange(0, 0), prefix@) =~= Seq::<Seq<u8>>::empty());
        output
    }

    /// The first file whose range holds the whole of `span`.
    fn covering_file(&self, span: &Span) -> (file: Option<&SourceFile>)
        requires
            forall|i: int| 0 <= i < self.spec_files().len() ==> (#[trigger] self.spec_files()[i]).wf(),
        ensures
            file == match first_covering(self.spec_files(), *span) {
                Some(i) => Some(&self.spec_files()[i]),
                None => None,
            },
            file matches Some(found) ==> found.wf() && found.covers(*span),
    {
        let ghost files = self.files@;
        let n = self.files.len();
        let mut i: usize = 0;
        while i < n
            invariant
                files == self.files@,
                forall|i: int| 0 <= i < files.len() ==> (#[trigger] files[i]).wf(),
                n == files.len(),
                i <= n,
                forall|j: int| 0 <= j < i ==> !(#[trigger] files[j]).covers(*span),
            decreases n - i,
        {
            let file = &self.files[i];
            if span.start >= file.start && span.start <= span.end && span.end <= file.end {
                proof {
                    lemma_first_covering(files, *span);
                    assert(files[i as int].covers(*span));
                }
                return Some(file);
            }
            i += 1;
        }
        proof {
            lemma_first_covering(files, *span);
        }
        None
    }
}

/// A parse's view of the engine: the committed state, which it only reads,
/// and over it the delta that the parse fills. An ID below the length of a
/// committed table means that table's entry; an ID from there on means an
/// entry of the delta.
pub struct StateWorkingSet<'a> {
    permanent_state: &'a EngineState,
    delta: StateDelta,
}

impl<'a> StateWorkingSet<'a> {
    /// The committed state under the working set.
    pub closed spec fn permanent(&self) -> EngineState {
        *self.permanent_state
    }

    /// What the working set has added so far.
    pub closed spec fn spec_delta(&self) -> StateDelta {
        self.delta
    }

    /// The frames that the working set has open, outermost first.
    pub open spec fn frames(&self) -> Seq<ScopeFrame> {
        self.spec_delta().spec_scope()
    }

    /// All frames that names resolve over: the committed ones, and inside
    /// them those of the working set.
    pub open spec fn all_frames(&self) -> Seq<ScopeFrame> {
        self.permanent().spec_scope() + self.frames()
    }

    /// The files that the working set has added.
    pub open spec fn added_files(&self) -> Seq<SourceFile> {
        self.spec_delta().spec_files()
    }

    /// The types of the variables that the working set has added.
    pub open spec fn added_vars(&self) -> Seq<Type> {
        self.spec_delta().spec_vars()
    }

    /// The declarations that the working set has added.
    pub open spec fn added_decls(&self) -> Seq<Declaration> {
        self.spec_delta().spec_decls()
    }

    /// The blocks that the working set has added.
    pub open spec fn added_blocks(&self) -> Seq<Block> {
        self.spec_delta().spec_blocks()
    }

    /// The number of files, committed and added.
    pub open spec fn spec_num_files(&self) -> nat {
        self.permanent().spec_files().len() + self.added_files().len()
    }

    /// The number of variables, committed and added.
    pub open spec fn spec_num_vars(&self) -> nat {
        self.permanent().spec_vars().len() + self.added_vars().len()
    }

    /// The number of declarations, committed and added.
    pub open spec fn spec_num_decls(&self) -> nat {
        self.permanent().spec_decls().len() + self.added_decls().len()
    }

    /// The number of blocks, committed and added.
    pub open spec fn spec_num_blocks(&self) -> nat {
        self.permanent().spec_blocks().len() + self.added_blocks().len()
    }

    /// All files, the committed ones first.
    pub open spec fn all_files(&self) -> Seq<SourceFile> {
        self.permanent().spec_files() + self.added_files()
    }

    /// The types of all variables, those of the committed ones first.
    pub open spec fn all_vars(&self) -> Seq<Type> {
        self.permanent().spec_vars() + self.added_vars()
    }

    /// All declarations, the committed ones first.
    pub open spec fn all_decls(&self) -> Seq<Declaration> {
        self.permanent().spec_decls() + self.added_decls()
    }

    /// All blocks, the committed ones first.
    pub open spec fn all_blocks(&self) -> Seq<Block> {
        self.permanent().spec_blocks() + self.added_blocks()
    }

    /// The committed state is well formed, so is every open frame, the added
    /// files start where the committed ones end, and every ID fits a machine
    /// integer.
    pub open spec fn wf(&self) -> bool {
        &&& self.permanent().wf()
        &&& frames_wf(self.frames())
        &&& ids_within(
            self.frames(),
            self.spec_num_vars(),
            self.spec_num_decls(),
            self.spec_num_blocks(),
        )
        &&& files_chain(self.added_files(), self.permanent().spec_next_span_start())
        &&& self.spec_num_files() <= usize::MAX
        &&& self.spec_num_vars() <= usize::MAX
        &&& self.spec_num_decls() <= usize::MAX
        &&& self.spec_num_blocks() <= usize::MAX
    }

    /// The offset at which the next file will start.
    pub open spec fn spec_next_span_start(&self) -> int {
        chain_end(self.added_files(), self.permanent().spec_next_span_start())
    }

    /// Both working sets lie over the same committed state.
    pub open spec fn same_permanent(&self, before: &StateWorkingSet<'a>) -> bool {
        self.permanent() == before.permanent()
    }

    /// `self` differs from `before` in its innermost frame alone, which now
    /// is well formed and has the view `top`.
    pub open spec fn top_frame_is(&self, before: &StateWorkingSet<'a>, top: ScopeFrameView) -> bool {
        &&& self.frames().len() == before.frames().len()
        &&& self.frames().drop_last() == before.frames().drop_last()
        &&& self.frames().last().wf()
        &&& self.frames().last()@ == top
    }

    /// `self` differs from `before` in the frame at index `k` alone, which
    /// now is well formed and has the view `frame`.
    pub open spec fn frame_is(
        &self,
        before: &StateWorkingSet<'a>,
        k: int,
        frame: ScopeFrameView,
    ) -> bool {
        &&& self.frames().len() == before.frames().len()
        &&& forall|i: int|
            0 <= i < self.frames().len() && i != k ==> self.frames()[i] == before.frames()[i]
        &&& self.frames()[k].wf()
        &&& self.frames()[k]@ == frame
    }

    /// The declaration that `name` resolves to.
    pub open spec fn spec_find_decl(&self, name: Seq<u8>) -> Option<DeclId> {
        match delta_decl(self.frames(), name, Map::empty()) {
            Some(decl_id) => Some(decl_id),
            None => visible_decl(
                self.permanent().spec_scope(),
                name,
                marks_after(self.frames(), Map::empty()),
            ),
        }
    }

    /// Whether `self` is `before` after `name` was hidden in it, with `hidden`
    /// the ID that was returned.
    pub open spec fn is_hiding_of(
        &self,
        before: &StateWorkingSet<'a>,
        name: Seq<u8>,
        hidden: Option<DeclId>,
    ) -> bool {
        match innermost_decl_frame(before.frames(), name) {
            Some(k) => hidden == Some(before.frames()[k]@.decls[name]) && self.frame_is(
                before,
                k,
                before.frames()[k]@.undeclare(name),
            ),
            None => match visible_decl(
                before.permanent().spec_scope(),
                name,
                marks_after(before.frames(), Map::empty()),
            ) {
                Some(decl_id) => hidden == Some(decl_id) && self.top_frame_is(
                    before,
                    ScopeFrameView {
                        visibility: before.frames().last()@.visibility.insert(decl_id, false),
                        ..before.frames().last()@
                    },
                ),
                None => hidden.is_none() && self.frames() == before.frames(),
            },
        }
    }

    /// A working set over `permanent_state` that has added nothing and has
    /// one empty frame open.
    pub fn new(permanent_state: &'a EngineState) -> (working_set: Self)
        requires
            permanent_state.wf(),
        ensures
            working_set.wf(),
            working_set.permanent() == *permanent_state,
            working_set.added_files().len() == 0,
            working_set.added_vars().len() == 0,
            working_set.added_decls().len() == 0,
            working_set.added_blocks().len() == 0,
            working_set.frames().len() == 1,
            working_set.frames()[0].wf(),
            working_set.frames()[0].is_empty(),
    {
        let mut scope: Vec<ScopeFrame> = Vec::new();
        scope.push(ScopeFrame::new());
        let working_set = StateWorkingSet {
            delta: StateDelta {
                files: Vec::new(),
                vars: Vec::new(),
                decls: Vec::new(),
                blocks: Vec::new(),
                scope,
            },
            permanent_state,
        };
        permanent_state.note_table_lengths();
        working_set
    }

    /// The committed state under the working set.
    pub fn permanent_state(&self) -> (state: &'a EngineState)
        ensures
            *state == self.permanent(),
    {
        self.permanent_state
    }

    /// What the working set has added so far.
    pub fn delta(&self) -> (delta: &StateDelta)
        ensures
            *delta == self.spec_delta(),
    {
        &self.delta
    }

    /// The number of files, committed and added.
    pub fn num_files(&self) -> (n: usize)
        requires
            self.wf(),
        ensures
            n == self.spec_num_files(),
    {
        self.delta.num_files() + self.permanent_state.num_files()
    }

    /// The number of declarations, committed and added.
    pub fn num_decls(&self) -> (n: usize)
        requires
            self.wf(),
        ensures
            n == self.spec_num_decls(),
    {
        self.delta.num_decls() + self.permanent_state.num_decls()
    }

    /// The number of blocks, committed and added.
    pub fn num_blocks(&self) -> (n: usize)
        requires
            self.wf(),
        ensures
            n == self.spec_num_blocks(),
    {
        self.delta.num_blocks() + self.permanent_state.num_blocks()
    }

    /// Adds a declaration, binds its name to it in the innermost frame, and
    /// marks it shown there. Returns the declaration's ID.
    pub fn add_decl(&mut self, decl: Declaration) -> (decl_id: DeclId)
        requires
            old(self).wf(),
            old(self).frames().len() > 0,
            old(self).spec_num_decls() < usize::MAX,
        ensures
            final(self).wf(),
            final(self).same_permanent(old(self)),
            decl_id == old(self).spec_num_decls(),
            final(self).added_decls() == old(self).added_decls().push(decl),
            final(self).spec_delta().same_tables_but(&old(self).spec_delta(), IdKind::Decl),
            final(self).top_frame_is(
                old(self),
                old(self).frames().last()@.declare(decl.spec_name_bytes(), decl_id),
            ),
    {
        let name = decl.name_bytes();
        self.delta.decls.push(decl);
        let decl_id = self.num_decls() - 1;
        match self.delta.scope.last_mut() {
            Some(scope_frame) => {
                assert(scope_frame.wf());
                scope_frame.decls.insert(name, decl_id);
                scope_frame.visibility.use_id(&decl_id);
            },
            None => {},
        }
        proof {
            lemma_top_replaced(old(self).frames(), self.frames());
        }
        decl_id
    }

    /// Adds a declaration and reserves its name for it in the innermost
    /// frame: the name is pre-declared there. Returns the ID that the name was
    /// pre-declared as before, if it was. The declaration that was added then
    /// stays in its table.
    pub fn add_predecl(&mut self, decl: Declaration) -> (previous: Option<DeclId>)
        requires
            old(self).wf(),
            old(self).frames().len() > 0,
            old(self).spec_num_decls() < usize::MAX,
        ensures
            final(self).wf(),
            final(self).same_permanent(old(self)),
            previous == (if old(self).frames().last()@.predecls.contains_key(
                decl.spec_name_bytes(),
            ) {
                Some(old(self).frames().last()@.predecls[decl.spec_name_bytes()])
            } else {
                None
            }),
            final(self).added_decls() == old(self).added_decls().push(decl),
            final(self).spec_delta().same_tables_but(&old(self).spec_delta(), IdKind::Decl),
            final(self).top_frame_is(
                old(self),
                ScopeFrameView {
                    predecls: old(self).frames().last()@.predecls.insert(
                        decl.spec_name_bytes(),
                        old(self).spec_num_decls() as usize,
                    ),
                    ..old(self).frames().last()@
                },
            ),
    {
        let name = decl.name_bytes();
        self.delta.decls.push(decl);
        let decl_id = self.num_decls() - 1;
        let mut previous: Option<DeclId> = None;
        match self.delta.scope.last_mut() {
            Some(scope_frame) => {
                assert(scope_frame.wf());
                previous = scope_frame.predecls.insert(name, decl_id);
            },
            None => {},
        }
        proof {
            lemma_top_replaced(old(self).frames(), self.frames());
        }
        previous
    }

    /// Turns the pre-declaration of `name` in the innermost frame into a
    /// declaration that is marked shown, and returns its ID. Where the
    /// innermost frame does not pre-declare the name, nothing changes.
    pub fn merge_predecl(&mut self, name: &[u8]) -> (promoted: Option<DeclId>)
        requires
            old(self).wf(),
            old(self).frames().len() > 0,
        ensures
            final(self).wf(),
            final(self).same_permanent(old(self)),
            final(self).spec_delta().same_tables(&old(self).spec_delta()),
            old(self).frames().last()@.predecls.contains_key(name@) ==> promoted == Some(
                old(self).frames().last()@.predecls[name@],
            ) && final(self).top_frame_is(
                old(self),
                ScopeFrameView {
                    predecls: old(self).frames().last()@.predecls.remove(name@),
                    ..old(self).frames().last()@.declare(
                        name@,
                        old(self).frames().last()@.predecls[name@],
                    )
                },
            ),
            !old(self).frames().last()@.predecls.contains_key(name@) ==> promoted.is_none()
                && final(self).top_frame_is(old(self), old(self).frames().last()@),
    {
        let mut promoted: Option<DeclId> = None;
        match self.delta.scope.last_mut() {
            Some(scope_frame) => {
                assert(scope_frame.wf());
                match scope_frame.predecls.remove(name) {
                    Some(decl_id) => {
                        scope_frame.decls.insert(slice_to_vec(name), decl_id);
                        scope_frame.visibility.use_id(&decl_id);
                        promoted = Some(decl_id);
                    },
                    None => {
                        assert(scope_frame.predecls@ =~= old(self).frames().last()@.predecls);
                    },
                }
            },
            None => {},
        }
        proof {
            lemma_top_replaced(old(self).frames(), self.frames());
        }
        promoted
    }

    /// Hides the declaration that `name` stands for, and returns its ID.
    /// Where a frame of the working set declares the name, the innermost such
    /// frame loses that binding. Else, where the name resolves to a committed
    /// declaration that is shown, the innermost frame marks that declaration
    /// hidden; the committed frames stay as they are. Else nothing changes.
    /// Pre-declarations play no part.
    pub fn hide_decl(&mut self, name: &[u8]) -> (hidden: Option<DeclId>)
        requires
            old(self).wf(),
            old(self).frames().len() > 0,
        ensures
            final(self).wf(),
            final(self).same_permanent(old(self)),
            final(self).spec_delta().same_tables(&old(self).spec_delta()),
            final(self).is_hiding_of(old(self), name@, hidden),
            hidden matches Some(decl_id) ==> decl_id < old(self).spec_num_decls(),
    {
        proof {
            lemma_innermost_decl_frame(self.frames(), name@);
            lemma_visible_decl_within(
                self.permanent().spec_scope(),
                name@,
                marks_after(self.frames(), Map::empty()),
                self.permanent().spec_vars().len(),
                self.permanent().spec_decls().len(),
                self.permanent().spec_blocks().len(),
            );
        }
        match self.delta.find_decl_frame(name) {
            Some(k) => {
                assert(self.delta.scope@[k as int].wf());
                let removed = self.delta.scope[k].decls.remove(name);
                proof {
                    let after = self.frames();
                    assert forall|i: int| 0 <= i < after.len() implies (#[trigger] after[i]).wf() by {
                        if i != k {
                            assert(after[i] == old(self).frames()[i]);
                        }
                    }
                }
                return removed;
            },
            None => {},
        }
        let marks = self.delta.gathered_marks();
        match self.permanent_state.find_decl_under(name, marks) {
            Some(decl_id) => {
                match self.delta.scope.last_mut() {
                    Some(last_scope_frame) => {
                        last_scope_frame.visibility.hide_id(&decl_id);
                    },
                    None => {},
                }
                proof {
                    lemma_top_replaced(old(self).frames(), self.frames());
                }
                Some(decl_id)
            },
            None => None,
        }
    }

    /// Adds a block and returns its ID.
    pub fn add_block(&mut self, block: Block) -> (block_id: BlockId)
        requires
            old(self).wf(),
            old(self).spec_num_blocks() < usize::MAX,
        ensures
            final(self).wf(),
            final(self).same_permanent(old(self)),
            final(self).frames() == old(self).frames(),
            block_id == old(self).spec_num_blocks(),
            final(self).added_blocks() == old(self).added_blocks().push(
                block,
            ),
            final(self).spec_delta().same_tables_but(&old(self).spec_delta(), IdKind::Block),
    {
        self.delta.blocks.push(block);
        self.num_blocks() - 1
    }

    /// Adds a block as a module: binds `name` to it in the innermost frame.
    /// Returns the block's ID.
    pub fn add_module(&mut self, name: &str, block: Block) -> (block_id: BlockId)
        requires
            old(self).wf(),
            old(self).frames().len() > 0,
            old(self).spec_num_blocks() < usize::MAX,
        ensures
            final(self).wf(),
            final(self).same_permanent(old(self)),
            block_id == old(self).spec_num_blocks(),
            final(self).added_blocks() == old(self).added_blocks().push(
                block,
            ),
            final(self).spec_delta().same_tables_but(&old(self).spec_delta(), IdKind::Block),
            final(self).top_frame_is(
                old(self),
                ScopeFrameView {
                    modules: old(self).frames().last()@.modules.insert(
                        encode_utf8(name@),
                        block_id,
                    ),
                    ..old(self).frames().last()@
                },
            ),
    {
        let name = slice_to_vec(name.as_bytes());
        self.delta.blocks.push(block);
        let block_id = self.num_blocks() - 1;
        match self.delta.scope.last_mut() {
            Some(scope_frame) => {
                assert(scope_frame.wf());
                scope_frame.modules.insert(name, block_id);
            },
            None => {},
        }
        proof {
            lemma_top_replaced(old(self).frames(), self.frames());
        }
        block_id
    }

    /// Binds every name of `overlay` to its declaration in the innermost
    /// frame and marks the declaration shown, in the order of the list: a
    /// later pair decides over an earlier one.
    pub fn activate_overlay(&mut self, overlay: Vec<(Vec<u8>, DeclId)>)
        requires
            old(self).wf(),
            old(self).frames().len() > 0,
            forall|i: int|
                0 <= i < overlay@.len() ==> (#[trigger] overlay@[i]).1 < old(self).spec_num_decls(),
        ensures
            final(self).wf(),
            final(self).same_permanent(old(self)),
            final(self).spec_delta().same_tables(&old(self).spec_delta()),
            final(self).top_frame_is(
                old(self),
                activated(old(self).frames().last()@, overlay_view(overlay@)),
            ),
    {
        let ghost pairs = overlay_view(overlay@);
        let ghost before = self.frames().last()@;
        match self.delta.scope.last_mut() {
            Some(scope_frame) => {
                let ghost mut done: int = 0;
                assert(pairs.subrange(0, 0) =~= Seq::<(Seq<u8>, DeclId)>::empty());
                let ghost vars = self.spec_num_vars();
                let ghost decls = self.spec_num_decls();
                let ghost blocks = self.spec_num_blocks();
                for pair in it: overlay
                    invariant
                        it.seq() == overlay@,
                        pairs == overlay_view(overlay@),
                        done == it.index(),
                        forall|i: int| 0 <= i < overlay@.len() ==> (#[trigger] overlay@[i]).1 < decls,
                        scope_frame.wf(),
                        frame_ids_within(*scope_frame, vars, decls, blocks),
                        scope_frame@ == activated(before, pairs.subrange(0, done)),
                {
                    proof {
                        let upto = pairs.subrange(0, done + 1);
                        assert(upto.drop_last() =~= pairs.subrange(0, done));
                        assert(upto.last() == (pair.0@, pair.1));
                        done = done + 1;
                    }
                    scope_frame.decls.insert(pair.0, pair.1);
                    scope_frame.visibility.use_id(&pair.1);
                }
                assert(pairs.subrange(0, done) =~= pairs);
            },
            None => {},
        }
        proof {
            lemma_top_replaced(old(self).frames(), self.frames());
        }
    }

    /// The offset at which the next file will start: behind the last added
    /// file, or behind the committed files where none was added.
    pub fn next_span_start(&self) -> (start: usize)
        requires
            self.wf(),
        ensures
            start == self.spec_next_span_start(),
    {
        let permanent_span_start = self.permanent_state.next_span_start();
        let n = self.delta.files.len();
        if n > 0 {
            self.delta.files[n - 1].end
        } else {
            permanent_span_start
        }
    }

    /// The offset at which the files of this working set start.
    pub fn global_span_offset(&self) -> (start: usize)
        ensures
            start == self.permanent().spec_next_span_start(),
    {
        self.permanent_state.next_span_start()
    }

    /// The name, start and end of every file, committed and added, by `FileId`.
    pub fn files(&self) -> (list: Vec<(String, usize, usize)>)
        ensures
            list@.len() == self.all_files().len(),
            forall|i: int|
                0 <= i < list@.len() ==> (#[trigger] list@[i]).0@ == self.all_files()[i].name@
                    && list@[i].1 == self.all_files()[i].start && list@[i].2
                    == self.all_files()[i].end,
    {
        let mut list = self.permanent_state.files();
        let ghost committed = list@.len();
        let mut i: usize = 0;
        while i < self.delta.files.len()
            invariant
                committed == self.permanent().spec_files().len(),
                i <= self.delta.files@.len(),
                list@.len() == committed + i,
                forall|k: int|
                    0 <= k < list@.len() ==> (#[trigger] list@[k]).0@ == self.all_files()[k].name@
                        && list@[k].1 == self.all_files()[k].start && list@[k].2
                        == self.all_files()[k].end,
            decreases self.delta.files@.len() - i,
        {
            let file = &self.delta.files[i];
            list.push((file.name.clone(), file.start, file.end));
            i += 1;
        }
        list
    }

    /// The name of the file `file_id`; `<unknown>` where there is no such file.
    pub fn get_filename(&self, file_id: FileId) -> (name: String)
        requires
            self.wf(),
        ensures
            file_id < self.spec_num_files() ==> name@ == self.all_files()[file_id as int].name@,
            file_id >= self.spec_num_files() ==> name@ == "<unknown>"@,
    {
        let num_permanent_files = self.permanent_state.num_files();
        if file_id < num_permanent_files {
            self.permanent_state.get_filename(file_id)
        } else if file_id - num_permanent_files < self.delta.files.len() {
            self.delta.files[file_id - num_permanent_files].name.clone()
        } else {
            "<unknown>".to_owned()
        }
    }

    /// The text of the file `file_id`, bytes that are not UTF-8 replaced;
    /// `<unknown>` where there is no such file.
    pub fn get_file_source(&self, file_id: FileId) -> (source: String)
        requires
            self.wf(),
        ensures
            file_id < self.spec_num_files() ==> source@ == utf8_lossy(
                self.all_files()[file_id as int].contents@,
            ),
            file_id < self.spec_num_files() && valid_utf8(
                self.all_files()[file_id as int].contents@,
            ) ==> source@ == decode_utf8(self.all_files()[file_id as int].contents@),
            file_id < self.spec_num_files() && self.all_files()[file_id as int].contents@.len()
                == 0 ==> source@ == Seq::<char>::empty(),
            file_id >= self.spec_num_files() ==> source@ == "<unknown>"@,
    {
        let num_permanent_files = self.permanent_state.num_files();
        if file_id < num_permanent_files {
            self.permanent_state.get_file_source(file_id)
        } else if file_id - num_permanent_files < self.delta.files.len() {
            from_utf8_lossy(self.delta.files[file_id - num_permanent_files].contents.as_slice())
        } else {
            "<unknown>".to_owned()
        }
    }

    /// Registers a file and returns its ID. The file's range starts where the
    /// range of the last file, committed or added, ends.
    pub fn add_file(&mut self, filename: String, contents: &[u8]) -> (file_id: FileId)
        requires
            old(self).wf(),
            old(self).spec_num_files() < usize::MAX,
            old(self).spec_next_span_start() + contents@.len() <= usize::MAX,
        ensures
            final(self).wf(),
            final(self).same_permanent(old(self)),
            final(self).frames() == old(self).frames(),
            file_id == old(self).spec_num_files(),
            final(self).added_files().len() == old(self).added_files().len()
                + 1,
            final(self).added_files().drop_last() == old(self).added_files(),
            final(self).added_files().last().name == filename,
            final(self).added_files().last().contents@ == contents@,
            final(self).added_files().last().start == old(self).spec_next_span_start(),
            final(self).added_files().last().end == old(self).spec_next_span_start()
                + contents@.len(),
            final(self).spec_delta().same_tables_but(&old(self).spec_delta(), IdKind::File),
            final(self).spec_next_span_start() == old(self).spec_next_span_start()
                + contents@.len(),
    {
        let next_span_start = self.next_span_start();
        let next_span_end = next_span_start + contents.len();
        let ghost before = self.delta.files@;
        let file = SourceFile {
            name: filename,
            contents: slice_to_vec(contents),
            start: next_span_start,
            end: next_span_end,
        };
        self.delta.files.push(file);
        proof {
            assert(self.delta.files@.drop_last() =~= before);
            lemma_chain_continued(before, seq![file], self.permanent().spec_next_span_start());
            assert(before + seq![file] =~= self.delta.files@);
        }
        self.num_files() - 1
    }

    /// The first file, committed or added, whose range holds the whole of `span`.
    fn covering_file(&self, span: &Span) -> (file: Option<&SourceFile>)
        requires
            self.wf(),
        ensures
            file == match first_covering(self.all_files(), *span) {
                Some(i) => Some(&self.all_files()[i]),
                None => None,
            },
            file matches Some(found) ==> found.wf() && found.covers(*span),
    {
        proof {
            let committed = self.permanent().spec_files();
            let added = self.added_files();
            lemma_first_covering_split(committed, added, *span);
            lemma_first_covering(committed, *span);
            lemma_first_covering(added, *span);
            match first_covering(committed, *span) {
                Some(i) => {
                    assert(self.all_files()[i] == committed[i]);
                },
                None => match first_covering(added, *span) {
                    Some(i) => {
                        assert(self.all_files()[committed.len() + i] == added[i]);
                    },
                    None => {},
                },
            }
        }
        match self.permanent_state.covering_file(span) {
            Some(file) => Some(file),
            None => self.delta.covering_file(span),
        }
    }

    /// The bytes that `span` covers. The span has to lie within the range of
    /// one file, committed or added; among several such files the first one
    /// is read.
    pub fn get_span_contents(&self, span: Span) -> (contents: Result<&[u8], EngineError>)
        requires
            self.wf(),
        ensures
            match first_covering(self.all_files(), span) {
                Some(i) => contents.is_ok() && contents.unwrap()@ == span_bytes(
                    self.all_files()[i],
                    span,
                ),
                None => contents == Err::<&[u8], EngineError>(EngineError::SpanOutOfRange(span)),
            },
    {
        match self.covering_file(&span) {
            Some(file) => Ok(
                slice_subrange(
                    file.contents.as_slice(),
                    span.start - file.start,
                    span.end - file.start,
                ),
            ),
            None => Err(EngineError::SpanOutOfRange(span)),
        }
    }

    /// Reads `span` for a diagnostic, with lines of context around it: the
    /// bytes, the name of the first file, committed or added, that covers the
    /// span, and the line and column at which the bytes begin in that file.
    pub fn read_span(
        &self,
        span: Span,
        context_lines_before: usize,
        context_lines_after: usize,
    ) -> (result: Result<SourceReading<'_>, EngineError>)
        requires
            self.wf(),
        ensures
            spec_read_span(
                result,
                self.all_files(),
                span,
                context_lines_before,
                context_lines_after,
            ),
    {
        match self.covering_file(&span) {
            Some(file) => Ok(
                read_file_span(file, span, context_lines_before, context_lines_after),
            ),
            None => Err(EngineError::SpanOutOfRange(span)),
        }
    }

    /// Opens a scope: puts an empty frame on the stack.
    pub fn enter_scope(&mut self)
        requires
            old(self).wf(),
        ensures
            final(self).wf(),
            final(self).same_permanent(old(self)),
            final(self).spec_delta().same_tables(&old(self).spec_delta()),
            final(self).frames().len() == old(self).frames().len() + 1,
            final(self).frames().drop_last() == old(self).frames(),
            final(self).frames().last().wf(),
            final(self).frames().last().is_empty(),
    {
        self.delta.enter_scope();
        proof {
            let after = self.frames();
            assert forall|i: int| 0 <= i < after.len() implies (#[trigger] after[i]).wf()
                && frame_ids_within(
                after[i],
                self.spec_num_vars(),
                self.spec_num_decls(),
                self.spec_num_blocks(),
            ) by {
                if i < after.len() - 1 {
                    assert(after[i] == after.drop_last()[i]);
                }
            }
        }
    }

    /// Closes the innermost scope: takes its frame off the stack.
    pub fn exit_scope(&mut self)
        requires
            old(self).wf(),
            old(self).frames().len() > 0,
        ensures
            final(self).wf(),
            final(self).same_permanent(old(self)),
            final(self).spec_delta().same_tables(&old(self).spec_delta()),
            final(self).frames() == old(self).frames().drop_last(),
    {
        self.delta.exit_scope();
    }

    /// The declaration that `name` resolves to. The frames of the working set
    /// are asked first, from the innermost outwards, then the committed
    /// frames. A frame that pre-declares the name decides, whatever the marks
    /// say. A frame that declares the name decides if the marks gathered down
    /// to it, its own among them, show the declaration; a mark from further
    /// inside decides over one from further out.
    pub fn find_decl(&self, name: &[u8]) -> (decl_id: Option<DeclId>)
        requires
            self.wf(),
        ensures
            decl_id == self.spec_find_decl(name@),
            decl_id matches Some(found) ==> found < self.spec_num_decls(),
    {
        proof {
            self.lemma_found_decl_exists(name@);
        }
        let (found, marks) = self.delta.find_own_decl(name);
        match found {
            Some(decl_id) => Some(decl_id),
            None => self.permanent_state.find_decl_under(name, marks),
        }
    }

    /// The module that `name` is bound to in the innermost frame that binds it.
    pub fn find_module(&self, name: &[u8]) -> (block_id: Option<BlockId>)
        requires
            self.wf(),
        ensures
            block_id == innermost_id(self.all_frames(), Namespace::Modules, name@),
            block_id matches Some(found) ==> found < self.spec_num_blocks(),
    {
        proof {
            self.lemma_found_id_exists(Namespace::Modules, name@);
            lemma_innermost_id_split(
                self.permanent().spec_scope(),
                self.frames(),
                Namespace::Modules,
                name@,
            );
        }
        match self.delta.find_id(Namespace::Modules, name) {
            Some(block_id) => Some(block_id),
            None => self.permanent_state.find_id(Namespace::Modules, name),
        }
    }

    /// Whether some frame, of the working set or committed, declares a name
    /// that begins with `name`.
    pub fn contains_decl_partial_match(&self, name: &[u8]) -> (found: bool)
        ensures
            found == (some_decl_has_prefix(self.frames(), name@) || some_decl_has_prefix(
                self.permanent().spec_scope(),
                name@,
            )),
    {
        if self.delta.has_decl_with_prefix(name) {
            return true;
        }
        self.permanent_state.has_decl_with_prefix(name)
    }

    /// The ID that the next variable will get.
    pub fn next_var_id(&self) -> (var_id: VarId)
        requires
            self.wf(),
        ensures
            var_id == self.spec_num_vars(),
    {
        let num_permanent_vars = self.permanent_state.num_vars();
        num_permanent_vars + self.delta.vars.len()
    }

    /// The variable that `name` is bound to in the innermost frame that binds it.
    pub fn find_variable(&self, name: &[u8]) -> (var_id: Option<VarId>)
        requires
            self.wf(),
        ensures
            var_id == innermost_id(self.all_frames(), Namespace::Vars, name@),
            var_id matches Some(found) ==> found < self.spec_num_vars(),
    {
        proof {
            self.lemma_found_id_exists(Namespace::Vars, name@);
            lemma_innermost_id_split(
                self.permanent().spec_scope(),
                self.frames(),
                Namespace::Vars,
                name@,
            );
        }
        match self.delta.find_id(Namespace::Vars, name) {
            Some(var_id) => Some(var_id),
            None => self.permanent_state.find_id(Namespace::Vars, name),
        }
    }

    /// The replacement that `name` stands for in the innermost frame that has
    /// it as an alias.
    pub fn find_alias(&self, name: &[u8]) -> (spans: Option<&[Span]>)
        requires
            self.wf(),
        ensures
            match innermost_alias(self.all_frames(), name@) {
                Some(found) => spans.is_some() && spans.unwrap()@ == found@,
                None => spans.is_none(),
            },
    {
        proof {
            lemma_innermost_alias_split(self.permanent().spec_scope(), self.frames(), name@);
        }
        match self.delta.find_alias(name) {
            Some(spans) => Some(spans.as_slice()),
            None => match self.permanent_state.find_alias(name) {
                Some(spans) => Some(spans.as_slice()),
                None => None,
            },
        }
    }

    /// Adds a variable of type `ty` and binds its name to it in the innermost
    /// frame. A name that does not begin with `$` is bound with a `$` put
    /// before it. Returns the variable's ID.
    pub fn add_variable(&mut self, name: Vec<u8>, ty: Type) -> (var_id: VarId)
        requires
            old(self).wf(),
            old(self).frames().len() > 0,
            old(self).spec_num_vars() < usize::MAX,
        ensures
            final(self).wf(),
            final(self).same_permanent(old(self)),
            var_id == old(self).spec_num_vars(),
            final(self).added_vars() == old(self).added_vars().push(ty),
            final(self).spec_delta().same_tables_but(&old(self).spec_delta(), IdKind::Var),
            final(self).top_frame_is(
                old(self),
                ScopeFrameView {
                    vars: old(self).frames().last()@.vars.insert(with_sigil(name@), var_id),
                    ..old(self).frames().last()@
                },
            ),
    {
        let next_id = self.next_var_id();
        let ghost given = name@;
        let mut name = name;
        if name.len() == 0 || name[0] != SIGIL {
            name.insert(0, SIGIL);
            assert(name@ =~= with_sigil(given));
        }
        match self.delta.scope.last_mut() {
            Some(last) => {
                assert(last.wf());
                last.vars.insert(name, next_id);
            },
            None => {},
        }
        self.delta.vars.push(ty);
        proof {
            lemma_top_replaced(old(self).frames(), self.frames());
        }
        next_id
    }

    /// Binds `name` in the innermost frame as an alias for `replacement`.
    pub fn add_alias(&mut self, name: Vec<u8>, replacement: Vec<Span>)
        requires
            old(self).wf(),
            old(self).frames().len() > 0,
        ensures
            final(self).wf(),
            final(self).same_permanent(old(self)),
            final(self).spec_delta().same_tables(&old(self).spec_delta()),
            final(self).top_frame_is(
                old(self),
                ScopeFrameView {
                    aliases: old(self).frames().last()@.aliases.insert(name@, replacement),
                    ..old(self).frames().last()@
                },
            ),
    {
        match self.delta.scope.last_mut() {
            Some(last) => {
                assert(last.wf());
                last.aliases.insert(name, replacement);
            },
            None => {},
        }
        proof {
            lemma_top_replaced(old(self).frames(), self.frames());
        }
    }

    /// Sets the type of a variable that this working set has added. A
    /// committed variable cannot be changed.
    pub fn set_variable_type(&mut self, var_id: VarId, ty: Type) -> (done: Result<(), EngineError>)
        requires
            old(self).wf(),
        ensures
            final(self).wf(),
            final(self).same_permanent(old(self)),
            final(self).frames() == old(self).frames(),
            final(self).spec_delta().same_tables_but(&old(self).spec_delta(), IdKind::Var),
            match refusal(
                IdKind::Var,
                var_id,
                old(self).permanent().spec_vars().len(),
                old(self).spec_num_vars(),
            ) {
                Some(error) => done == Err::<(), EngineError>(error)
                    && final(self).added_vars() == old(self).added_vars(),
                None => done.is_ok() && final(self).added_vars() == old(self).added_vars().update(
                    var_id - old(self).permanent().spec_vars().len(),
                    ty,
                ),
            },
    {
        let num_permanent_vars = self.permanent_state.num_vars();
        if var_id < num_permanent_vars {
            Err(EngineError::MutatePermanent(IdKind::Var))
        } else if var_id - num_permanent_vars < self.delta.vars.len() {
            self.delta.vars[var_id - num_permanent_vars] = ty;
            Ok(())
        } else {
            Err(EngineError::MissingId(IdKind::Var, var_id))
        }
    }

    /// The type of the variable `var_id`.
    pub fn get_variable(&self, var_id: VarId) -> (ty: Result<&Type, EngineError>)
        requires
            self.wf(),
        ensures
            var_id < self.spec_num_vars() ==> ty == Ok::<&Type, EngineError>(
                &self.all_vars()[var_id as int],
            ),
            var_id >= self.spec_num_vars() ==> ty == Err::<&Type, EngineError>(
                EngineError::MissingId(IdKind::Var, var_id),
            ),
    {
        let num_permanent_vars = self.permanent_state.num_vars();
        if var_id < num_permanent_vars {
            self.permanent_state.get_var(var_id)
        } else if var_id - num_permanent_vars < self.delta.vars.len() {
            Ok(&self.delta.vars[var_id - num_permanent_vars])
        } else {
            Err(EngineError::MissingId(IdKind::Var, var_id))
        }
    }

    /// The file `file_id`.
    pub fn get_file(&self, file_id: FileId) -> (file: Result<&SourceFile, EngineError>)
        requires
            self.wf(),
        ensures
            file_id < self.spec_num_files() ==> file == Ok::<&SourceFile, EngineError>(
                &self.all_files()[file_id as int],
            ),
            file_id >= self.spec_num_files() ==> file == Err::<&SourceFile, EngineError>(
                EngineError::MissingId(IdKind::File, file_id),
            ),
    {
        let num_permanent_files = self.permanent_state.num_files();
        if file_id < num_permanent_files {
            self.permanent_state.get_file(file_id)
        } else if file_id - num_permanent_files < self.delta.files.len() {
            Ok(&self.delta.files[file_id - num_permanent_files])
        } else {
            Err(EngineError::MissingId(IdKind::File, file_id))
        }
    }

    /// The declaration `decl_id`.
    pub fn get_decl(&self, decl_id: DeclId) -> (decl: Result<&Declaration, EngineError>)
        requires
            self.wf(),
        ensures
            decl_id < self.spec_num_decls() ==> decl == Ok::<&Declaration, EngineError>(
                &self.all_decls()[decl_id as int],
            ),
            decl_id >= self.spec_num_decls() ==> decl == Err::<&Declaration, EngineError>(
                EngineError::MissingId(IdKind::Decl, decl_id),
            ),
    {
        let num_permanent_decls = self.permanent_state.num_decls();
        if decl_id < num_permanent_decls {
            self.permanent_state.get_decl(decl_id)
        } else if decl_id - num_permanent_decls < self.delta.decls.len() {
            Ok(&self.delta.decls[decl_id - num_permanent_decls])
        } else {
            Err(EngineError::MissingId(IdKind::Decl, decl_id))
        }
    }

    /// The declaration `decl_id`, to be changed in place. Only a declaration
    /// that this working set has added can be changed.
    pub fn get_decl_mut(&mut self, decl_id: DeclId) -> (decl: Result<&mut Declaration, EngineError>)
        requires
            old(self).wf(),
        ensures
            final(self).wf(),
            final(self).same_permanent(old(self)),
            final(self).frames() == old(self).frames(),
            final(self).spec_delta().same_tables_but(&old(self).spec_delta(), IdKind::Decl),
            match refusal(
                IdKind::Decl,
                decl_id,
                old(self).permanent().spec_decls().len(),
                old(self).spec_num_decls(),
            ) {
                Some(error) => decl.is_err() && decl.unwrap_err() == error
                    && final(self).added_decls() == old(self).added_decls(),
                None => decl.is_ok() && *decl.unwrap() == old(self).all_decls()[decl_id as int]
                    && final(self).added_decls() == old(self).added_decls().update(
                    decl_id - old(self).permanent().spec_decls().len(),
                    *final(decl.unwrap()),
                ),
            },
    {
        let num_permanent_decls = self.permanent_state.num_decls();
        if decl_id < num_permanent_decls {
            Err(EngineError::MutatePermanent(IdKind::Decl))
        } else if decl_id - num_permanent_decls < self.delta.decls.len() {
            Ok(&mut self.delta.decls[decl_id - num_permanent_decls])
        } else {
            Err(EngineError::MissingId(IdKind::Decl, decl_id))
        }
    }

    /// The declared names that begin with `name`: those of the working set's
    /// frames, from the innermost outwards, then those of the committed frames.
    pub fn find_commands_by_prefix(&self, name: &[u8]) -> (output: Vec<Vec<u8>>)
        requires
            self.wf(),
        ensures
            byte_strings(output@) == commands_with_prefix(self.frames(), name@)
                + commands_with_prefix(self.permanent().spec_scope(), name@),
    {
        let mut output = self.delta.find_commands_by_prefix(name);
        let mut permanent = self.permanent_state.find_commands_by_prefix(name);
        let ghost first = byte_strings(output@);
        let ghost second = byte_strings(permanent@);
        output.append(&mut permanent);
        assert(byte_strings(output@) =~= first + second);
        output
    }

    /// The block `block_id`.
    pub fn get_block(&self, block_id: BlockId) -> (block: Result<&Block, EngineError>)
        requires
            self.wf(),
        ensures
            block_id < self.spec_num_blocks() ==> block == Ok::<&Block, EngineError>(
                &self.all_blocks()[block_id as int],
            ),
            block_id >= self.spec_num_blocks() ==> block == Err::<&Block, EngineError>(
                EngineError::MissingId(IdKind::Block, block_id),
            ),
    {
        let num_permanent_blocks = self.permanent_state.num_blocks();
        if block_id < num_permanent_blocks {
            self.permanent_state.get_block(block_id)
        } else if block_id - num_permanent_blocks < self.delta.blocks.len() {
            Ok(&self.delta.blocks[block_id - num_permanent_blocks])
        } else {
            Err(EngineError::MissingId(IdKind::Block, block_id))
        }
    }

    /// The block `block_id`, to be changed in place. Only a block that this
    /// working set has added can be changed.
    pub fn get_block_mut(&mut self, block_id: BlockId) -> (block: Result<&mut Block, EngineError>)
        requires
            old(self).wf(),
        ensures
            final(self).wf(),
            final(self).same_permanent(old(self)),
            final(self).frames() == old(self).frames(),
            final(self).spec_delta().same_tables_but(&old(self).spec_delta(), IdKind::Block),
            match refusal(
                IdKind::Block,
                block_id,
                old(self).permanent().spec_blocks().len(),
                old(self).spec_num_blocks(),
            ) {
                Some(error) => block.is_err() && block.unwrap_err() == error
                    && final(self).added_blocks() == old(self).added_blocks(),
                None => block.is_ok() && *block.unwrap() == old(self).all_blocks()[block_id as int]
                    && final(self).added_blocks() == old(self).added_blocks().update(
                    block_id - old(self).permanent().spec_blocks().len(),
                    *final(block.unwrap()),
                ),
            },
    {
        let num_permanent_blocks = self.permanent_state.num_blocks();
        if block_id < num_permanent_blocks {
            Err(EngineError::MutatePermanent(IdKind::Block))
        } else if block_id - num_permanent_blocks < self.delta.blocks.len() {
            Ok(&mut self.delta.blocks[block_id - num_permanent_blocks])
        } else {
            Err(EngineError::MissingId(IdKind::Block, block_id))
        }
    }

    /// Ends the working set and hands out what it has added.
    pub fn render(self) -> (delta: StateDelta)
        requires
            self.wf(),
        ensures
            delta == self.spec_delta(),
            delta.wf(),
            self.permanent().spec_accepts(&delta),
    {
        proof {
            lemma_chain_from_first(
                self.delta.spec_files(),
                self.permanent().spec_next_span_start(),
            );
        }
        self.delta
    }

    /// Whatever a name resolves to is the ID of a declaration, committed or added.
    pub proof fn lemma_found_decl_exists(&self, name: Seq<u8>)
        requires
            self.wf(),
        ensures
            self.spec_find_decl(name) matches Some(found) ==> found < self.spec_num_decls(),
    {
        lemma_delta_decl_within(
            self.frames(),
            name,
            Map::empty(),
            self.spec_num_vars(),
            self.spec_num_decls(),
            self.spec_num_blocks(),
        );
        lemma_visible_decl_within(
            self.permanent().spec_scope(),
            name,
            marks_after(self.frames(), Map::empty()),
            self.permanent().spec_vars().len(),
            self.permanent().spec_decls().len(),
            self.permanent().spec_blocks().len(),
        );
    }

    /// Whatever a name is bound to in a namespace is the ID of an entry,
    /// committed or added.
    pub proof fn lemma_found_id_exists(&self, namespace: Namespace, name: Seq<u8>)
        requires
            self.wf(),
        ensures
            innermost_id(self.all_frames(), namespace, name) matches Some(found) ==> found < (
            match namespace {
                Namespace::Vars => self.spec_num_vars(),
                Namespace::Predecls => self.spec_num_decls(),
                Namespace::Decls => self.spec_num_decls(),
                Namespace::Modules => self.spec_num_blocks(),
            }),
    {
        let all = self.all_frames();
        let committed = self.permanent().spec_scope();
        assert forall|i: int| 0 <= i < all.len() implies frame_ids_within(
            #[trigger] all[i],
            self.spec_num_vars(),
            self.spec_num_decls(),
            self.spec_num_blocks(),
        ) by {
            if i < committed.len() {
                assert(all[i] == committed[i]);
                assert(frame_ids_within(
                    committed[i],
                    self.permanent().spec_vars().len(),
                    self.permanent().spec_decls().len(),
                    self.permanent().spec_blocks().len(),
                ));
            } else {
                assert(all[i] == self.frames()[i - committed.len()]);
            }
        }
        lemma_innermost_id_within(
            all,
            namespace,
            name,
            self.spec_num_vars(),
            self.spec_num_decls(),
            self.spec_num_blocks(),
        );
    }
}

/// Why the entry `id` cannot be changed through a working set, if it cannot:
/// it is one of the `committed` entries, or it is none of the `total` entries.
pub open spec fn refusal(kind: IdKind, id: usize, committed: nat, total: nat) -> Option<EngineError> {
    if id < committed {
        Some(EngineError::MutatePermanent(kind))
    } else if id >= total {
        Some(EngineError::MissingId(kind, id))
    } else {
        None
    }
}

/// Appends `entries` to `table`, in order.
fn append_entries<A: TableEntry>(table: &mut im::Vector<A>, entries: Vec<A>)
    ensures
        A::entries(*final(table)) == A::entries(*old(table)) + entries@,
{
    let ghost before = A::entries(*table);
    let ghost mut done: int = 0;
    assert(before =~= before + entries@.subrange(0, 0));
    for entry in it: entries
        invariant
            it.seq() == entries@,
            done == it.index(),
            A::entries(*table) == before + entries@.subrange(0, done),
    {
        table_push_back(table, entry);
        proof {
            assert(entries@.subrange(0, done + 1) =~= entries@.subrange(0, done).push(entry));
            assert(before + entries@.subrange(0, done + 1) =~= (before + entries@.subrange(
                0,
                done,
            )).push(entry));
            done = done + 1;
        }
    }
    assert(entries@.subrange(0, done) =~= entries@);
}

} // verus!
