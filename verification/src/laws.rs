//! Laws that relate the operations of the engine state and of the working
//! set to one another.

use vstd::prelude::*;
use vstd::utf8::{
    decode_utf8, encode_utf8, encode_utf8_decode_utf8, encode_utf8_valid_utf8, valid_utf8,
};
use crate::files::{
    files_chain, first_covering, lemma_chain_continued, lemma_own_span_read, span_bytes,
};
use crate::engine_state::{EngineState, StateDelta, StateWorkingSet};
use crate::id::DeclId;
use crate::resolve::{
    delta_decl, delta_decl_frame, innermost_decl_frame, lemma_decided_outside,
    lemma_delta_decl_frame, lemma_hiding_moves_outwards, lemma_inner_mark_stays,
    lemma_innermost_decl_frame, lemma_no_predecl_inside, lemma_visible_decl_frame, marks_after,
    outer_marks_added, visible_decl, visible_decl_frame,
};
use crate::scope_frame::{with_sigil, ScopeFrame, ScopeFrameView, SIGIL};
use crate::span::Span;
use crate::visibility::visible_in;

verus! {

/// IDs are stable: once a working set is merged, every ID that it knew,
/// whether of an entry that was committed before or of one that it added,
/// stands for the same entry in the committed tables, and the tables hold
/// nothing else.
pub proof fn law_ids_survive_merge(working_set: StateWorkingSet, merged: EngineState)
    requires
        working_set.wf(),
        merged.is_merge_of(&working_set.permanent(), &working_set.spec_delta()),
    ensures
        merged.spec_files() == working_set.all_files(),
        merged.spec_vars() == working_set.all_vars(),
        merged.spec_decls() == working_set.all_decls(),
        merged.spec_blocks() == working_set.all_blocks(),
        forall|id: int|
            0 <= id < working_set.permanent().spec_decls().len() ==> merged.spec_decls()[id]
                == working_set.permanent().spec_decls()[id],
        forall|id: int|
            0 <= id < working_set.added_decls().len() ==> merged.spec_decls()[
                working_set.permanent().spec_decls().len() + id
            ] == working_set.added_decls()[id],
{
}

/// The tables only grow: a merge leaves every entry that was committed where
/// it was and as it was.
pub proof fn law_tables_only_grow(before: EngineState, delta: StateDelta, merged: EngineState)
    requires
        merged.is_merge_of(&before, &delta),
    ensures
        before.spec_files().is_prefix_of(merged.spec_files()),
        before.spec_vars().is_prefix_of(merged.spec_vars()),
        before.spec_decls().is_prefix_of(merged.spec_decls()),
        before.spec_blocks().is_prefix_of(merged.spec_blocks()),
{
}

/// A name resolves after a merge to what it resolved to in the working set
/// that was merged, where the working set had one frame open and did not
/// pre-declare the name there. Where that frame declared the name, the law
/// needs one thing more, for the merge puts the declaration of the frame in
/// the place of the committed one: a declaration that the frame shows has to
/// be shown by the folded marks as well, and a declaration that the frame
/// hides must not stand before a committed declaration of the name that is
/// shown.
pub proof fn law_merge_keeps_resolution(
    working_set: StateWorkingSet,
    merged: EngineState,
    name: Seq<u8>,
)
    requires
        working_set.wf(),
        working_set.frames().len() == 1,
        merged.is_merge_of(&working_set.permanent(), &working_set.spec_delta()),
        !working_set.frames()[0]@.predecls.contains_key(name),
        working_set.frames()[0]@.decls.contains_key(name) ==> ({
            let added = working_set.frames()[0]@;
            let top = working_set.permanent().spec_scope().last()@;
            let marks = top.visibility.union_prefer_right(added.visibility);
            if visible_in(added.visibility, added.decls[name]) {
                visible_in(marks, added.decls[name])
            } else {
                !(top.decls.contains_key(name) && visible_in(marks, top.decls[name]))
            }
        }),
    ensures
        visible_decl(merged.spec_scope(), name, Map::empty()) == working_set.spec_find_decl(name),
{
    let committed = working_set.permanent().spec_scope();
    let frames = working_set.frames();
    let added = frames[0];
    let top = committed.last();
    let folded = merged.spec_scope().last();
    let none = Map::<DeclId, bool>::empty();
    assert(frames.drop_last() =~= Seq::<ScopeFrame>::empty());
    assert(frames.last() == added);
    reveal_with_fuel(delta_decl, 2);
    reveal_with_fuel(marks_after, 2);
    assert(outer_marks_added(none, added.visibility@) =~= added.visibility@);
    assert(marks_after(frames, none) == added.visibility@);
    assert(outer_marks_added(none, folded.visibility@) =~= outer_marks_added(
        added.visibility@,
        top.visibility@,
    ));
    if added.decls@.contains_key(name) {
        assert(folded.decls@[name] == added.decls@[name]);
    } else {
        if top.decls@.contains_key(name) {
            assert(folded.decls@.contains_key(name) && folded.decls@[name] == top.decls@[name]);
        } else {
            assert(!folded.decls@.contains_key(name));
        }
    }
}

/// The ranges of the files cover the stream of source bytes without a gap
/// from offset 0 on, and reading the range of a file gives the bytes of that
/// file.
pub proof fn law_span_coverage(state: EngineState, file_id: int)
    requires
        state.wf(),
        0 <= file_id < state.spec_files().len(),
    ensures
        files_chain(state.spec_files(), 0),
        ({
            let file = state.spec_files()[file_id];
            let span = Span { start: file.start, end: file.end };
            &&& first_covering(state.spec_files(), span).is_some()
            &&& span_bytes(state.spec_files()[first_covering(state.spec_files(), span).unwrap()], span)
                == file.contents@
            &&& file.contents@.len() == file.end - file.start
        }),
{
    lemma_own_span_read(state.spec_files(), 0, file_id);
}

/// In a working set too, the ranges of all files, committed and added, cover
/// the stream without a gap from offset 0 on, and reading the range of a file
/// gives the bytes of that file.
pub proof fn law_span_coverage_in_working_set(working_set: StateWorkingSet, file_id: int)
    requires
        working_set.wf(),
        0 <= file_id < working_set.spec_num_files(),
    ensures
        files_chain(working_set.all_files(), 0),
        ({
            let files = working_set.all_files();
            let file = files[file_id];
            let span = Span { start: file.start, end: file.end };
            &&& first_covering(files, span).is_some()
            &&& span_bytes(files[first_covering(files, span).unwrap()], span) == file.contents@
            &&& file.contents@.len() == file.end - file.start
        }),
{
    lemma_chain_continued(
        working_set.permanent().spec_files(),
        working_set.added_files(),
        0,
    );
    lemma_own_span_read(working_set.all_files(), 0, file_id);
}

/// The bytes of a text are valid UTF-8 and decode to the text: a file that
/// was added with the bytes of a text has that text as its source.
pub proof fn law_source_round_trip(text: Seq<char>)
    ensures
        valid_utf8(encode_utf8(text)),
        decode_utf8(encode_utf8(text)) == text,
{
    encode_utf8_valid_utf8(text);
    encode_utf8_decode_utf8(text);
}

/// A name that the innermost frame of a working set declares and shows, and
/// does not pre-declare, resolves to the declaration that this frame binds it
/// to, whatever the frames around it hold.
pub proof fn law_inner_binding_shadows(working_set: StateWorkingSet, name: Seq<u8>)
    requires
        working_set.frames().len() > 0,
        working_set.frames().last()@.decls.contains_key(name),
        !working_set.frames().last()@.predecls.contains_key(name),
        visible_in(
            working_set.frames().last()@.visibility,
            working_set.frames().last()@.decls[name],
        ),
    ensures
        working_set.spec_find_decl(name) == Some(working_set.frames().last()@.decls[name]),
{
    let top = working_set.frames().last();
    assert(outer_marks_added(Map::empty(), top.visibility@) =~= top.visibility@);
}

/// A name that was just declared in the innermost frame resolves to the new
/// declaration, unless that frame pre-declares the name.
pub proof fn law_new_decl_shadows(
    before: StateWorkingSet,
    after: StateWorkingSet,
    name: Seq<u8>,
    decl_id: DeclId,
)
    requires
        before.frames().len() > 0,
        after.top_frame_is(&before, before.frames().last()@.declare(name, decl_id)),
        !before.frames().last()@.predecls.contains_key(name),
    ensures
        after.spec_find_decl(name) == Some(decl_id),
{
    law_inner_binding_shadows(after, name);
}

/// Closing a scope brings back what names resolved to when it was opened,
/// where the frames around it were left as they were.
pub proof fn law_exit_restores_outer_binding(
    before: StateWorkingSet,
    inside: StateWorkingSet,
    after: StateWorkingSet,
    name: Seq<u8>,
)
    requires
        inside.permanent() == before.permanent(),
        after.permanent() == before.permanent(),
        inside.frames().len() == before.frames().len() + 1,
        inside.frames().drop_last() == before.frames(),
        after.frames() == inside.frames().drop_last(),
    ensures
        after.spec_find_decl(name) == before.spec_find_decl(name),
{
}

/// A name that the innermost frame pre-declares resolves to the
/// pre-declared ID. Pre-declaring the name again replaces the ID.
pub proof fn law_predecl_resolves(working_set: StateWorkingSet, name: Seq<u8>)
    requires
        working_set.frames().len() > 0,
        working_set.frames().last()@.predecls.contains_key(name),
    ensures
        working_set.spec_find_decl(name) == Some(working_set.frames().last()@.predecls[name]),
{
}

/// Pre-declaring a name and then promoting it: after either step the name
/// resolves to the ID that it was pre-declared as.
pub proof fn law_predecl_promotion(
    before: StateWorkingSet,
    predeclared: StateWorkingSet,
    promoted: StateWorkingSet,
    name: Seq<u8>,
    decl_id: DeclId,
)
    requires
        before.frames().len() > 0,
        predeclared.top_frame_is(
            &before,
            ScopeFrameView {
                predecls: before.frames().last()@.predecls.insert(name, decl_id),
                ..before.frames().last()@
            },
        ),
        promoted.top_frame_is(
            &predeclared,
            ScopeFrameView {
                predecls: predeclared.frames().last()@.predecls.remove(name),
                ..predeclared.frames().last()@.declare(
                    name,
                    predeclared.frames().last()@.predecls[name],
                )
            },
        ),
    ensures
        predeclared.spec_find_decl(name) == Some(decl_id),
        promoted.spec_find_decl(name) == Some(decl_id),
{
}

/// Pre-declaring a name twice in one frame leaves the second ID bound.
pub proof fn law_predecl_twice_replaces(
    before: StateWorkingSet,
    once: StateWorkingSet,
    twice: StateWorkingSet,
    name: Seq<u8>,
    first: DeclId,
    second: DeclId,
)
    requires
        before.frames().len() > 0,
        once.top_frame_is(
            &before,
            ScopeFrameView {
                predecls: before.frames().last()@.predecls.insert(name, first),
                ..before.frames().last()@
            },
        ),
        twice.top_frame_is(
            &once,
            ScopeFrameView {
                predecls: once.frames().last()@.predecls.insert(name, second),
                ..once.frames().last()@
            },
        ),
    ensures
        once.frames().last()@.predecls[name] == first,
        twice.frames().last()@.predecls[name] == second,
        twice.spec_find_decl(name) == Some(second),
{
}

/// In a state whose one frame binds nothing, no name resolves to a declaration.
pub proof fn law_empty_state_resolves_nothing(state: EngineState, name: Seq<u8>)
    requires
        state.spec_scope().len() == 1,
        state.spec_scope()[0].is_empty(),
    ensures
        visible_decl(state.spec_scope(), name, Map::empty()).is_none(),
{
    reveal_with_fuel(visible_decl, 2);
    assert(state.spec_scope().drop_last().len() == 0);
}

/// How far inside a name is decided: the index, among the committed frames
/// followed by those of the working set, of the frame that decides what the
/// name resolves to.
pub open spec fn decl_depth(working_set: StateWorkingSet, name: Seq<u8>) -> Option<int> {
    match delta_decl_frame(working_set.frames(), name, Map::empty()) {
        Some(k) => Some(working_set.permanent().spec_scope().len() + k),
        None => visible_decl_frame(
            working_set.permanent().spec_scope(),
            name,
            marks_after(working_set.frames(), Map::empty()),
        ),
    }
}

/// Whether a name resolves to a pre-declaration.
pub open spec fn decided_by_predecl(working_set: StateWorkingSet, name: Seq<u8>) -> bool {
    delta_decl_frame(working_set.frames(), name, Map::empty()) matches Some(k)
        && working_set.frames()[k]@.predecls.contains_key(name)
}

/// Whether a name resolves to a declaration, not a pre-declaration, and no
/// frame of the working set further inside holds a declaration of the name
/// that is hidden.
pub open spec fn decided_by_innermost_decl(working_set: StateWorkingSet, name: Seq<u8>) -> bool {
    match delta_decl_frame(working_set.frames(), name, Map::empty()) {
        Some(k) => !working_set.frames()[k]@.predecls.contains_key(name) && innermost_decl_frame(
            working_set.frames(),
            name,
        ) == Some(k),
        None => innermost_decl_frame(working_set.frames(), name).is_none() && visible_decl(
            working_set.permanent().spec_scope(),
            name,
            marks_after(working_set.frames(), Map::empty()),
        ).is_some(),
    }
}

/// The depth at which a name is decided is that of a frame which binds the
/// name to what it resolves to; a name that resolves to nothing has no depth.
pub proof fn lemma_decl_depth(working_set: StateWorkingSet, name: Seq<u8>)
    ensures
        match decl_depth(working_set, name) {
            Some(depth) => 0 <= depth < working_set.all_frames().len()
                && working_set.spec_find_decl(name) == Some(
                if decided_by_predecl(working_set, name) {
                    working_set.all_frames()[depth]@.predecls[name]
                } else {
                    working_set.all_frames()[depth]@.decls[name]
                },
            ) && (if decided_by_predecl(working_set, name) {
                working_set.all_frames()[depth]@.predecls.contains_key(name)
            } else {
                working_set.all_frames()[depth]@.decls.contains_key(name)
            }),
            None => working_set.spec_find_decl(name).is_none(),
        },
{
    let frames = working_set.frames();
    let committed = working_set.permanent().spec_scope();
    let none = Map::<DeclId, bool>::empty();
    lemma_delta_decl_frame(frames, name, none);
    lemma_visible_decl_frame(committed, name, marks_after(frames, none));
    match delta_decl_frame(frames, name, none) {
        Some(k) => {
            assert(working_set.all_frames()[committed.len() + k] == frames[k]);
        },
        None => match visible_decl_frame(committed, name, marks_after(frames, none)) {
            Some(k) => {
                assert(working_set.all_frames()[k] == committed[k]);
            },
            None => {},
        },
    }
}

/// Hiding a name gives way to what lies further out. Where the name resolves
/// to a declaration, and no frame further inside holds a hidden declaration
/// of it, that declaration is the one that is hidden; afterwards the name
/// resolves to nothing, or it is decided by a frame strictly further out,
/// be it by a declaration that is shown or by a pre-declaration.
pub proof fn law_hidden_decl_gives_way(
    before: StateWorkingSet,
    after: StateWorkingSet,
    name: Seq<u8>,
    hidden: Option<DeclId>,
)
    requires
        before.wf(),
        before.frames().len() > 0,
        after.same_permanent(&before),
        after.is_hiding_of(&before, name, hidden),
        decided_by_innermost_decl(before, name),
    ensures
        hidden.is_some(),
        hidden == before.spec_find_decl(name),
        decl_depth(before, name).is_some(),
        decl_depth(after, name) matches Some(later) ==> later < decl_depth(before, name).unwrap(),
        decl_depth(after, name) matches Some(later) ==> 0 <= later && after.spec_find_decl(name)
            == Some(
            if decided_by_predecl(after, name) {
                after.all_frames()[later]@.predecls[name]
            } else {
                after.all_frames()[later]@.decls[name]
            },
        ),
        decl_depth(after, name).is_none() ==> after.spec_find_decl(name).is_none(),
{
    let frames = before.frames();
    let later = after.frames();
    let committed = before.permanent().spec_scope();
    let none = Map::<DeclId, bool>::empty();
    lemma_innermost_decl_frame(frames, name);
    lemma_no_predecl_inside(frames, name, none);
    lemma_delta_decl_frame(frames, name, none);
    lemma_delta_decl_frame(later, name, none);
    lemma_decl_depth(before, name);
    lemma_decl_depth(after, name);
    match innermost_decl_frame(frames, name) {
        Some(k) => {
            assert forall|j: int| k <= j < later.len() implies !(
            #[trigger] later[j]).predecls@.contains_key(name) && !later[j].decls@.contains_key(
                name,
            ) by {
                if j != k {
                    assert(later[j] == frames[j]);
                    assert(!frames[j].predecls@.contains_key(name));
                    assert(!frames[j].decls@.contains_key(name));
                }
            }
            lemma_decided_outside(later, name, none, k);
            lemma_visible_decl_frame(committed, name, marks_after(later, none));
        },
        None => {
            let marks = marks_after(frames, none);
            lemma_visible_decl_frame(committed, name, marks);
            let decl_id = visible_decl(committed, name, marks).unwrap();
            let top = frames.last();
            let hid = later.last();
            assert(later.drop_last() == frames.drop_last());
            assert(outer_marks_added(none, hid.visibility@) =~= outer_marks_added(
                none,
                top.visibility@,
            ).insert(decl_id, false));
            lemma_inner_mark_stays(
                frames.drop_last(),
                outer_marks_added(none, top.visibility@),
                decl_id,
                false,
            );
            assert(marks_after(later, none) == marks.insert(decl_id, false));
            lemma_hiding_moves_outwards(committed, name, marks, decl_id);
            assert forall|j: int| 0 <= j < later.len() implies !(
            #[trigger] later[j]).predecls@.contains_key(name) && !later[j].decls@.contains_key(
                name,
            ) by {
                if j < later.len() - 1 {
                    assert(later[j] == later.drop_last()[j]);
                    assert(frames[j] == frames.drop_last()[j]);
                }
                assert(!frames[j].predecls@.contains_key(name));
                assert(!frames[j].decls@.contains_key(name));
            }
            lemma_decided_outside(later, name, none, 0);
        },
    }
}

/// A name that cannot be hidden resolved to nothing, or to a pre-declaration,
/// and the attempt changes no frame.
pub proof fn law_nothing_to_hide(before: StateWorkingSet, after: StateWorkingSet, name: Seq<u8>)
    requires
        before.wf(),
        before.frames().len() > 0,
        after.same_permanent(&before),
        after.is_hiding_of(&before, name, None),
    ensures
        after.frames() == before.frames(),
        after.spec_find_decl(name) == before.spec_find_decl(name),
        before.spec_find_decl(name).is_none() || decided_by_predecl(before, name),
{
    let frames = before.frames();
    let none = Map::<DeclId, bool>::empty();
    lemma_innermost_decl_frame(frames, name);
    lemma_delta_decl_frame(frames, name, none);
}

/// The name under which a variable is bound begins with `$`, and a name that
/// begins with `$` is bound as it is.
pub proof fn law_variable_names_begin_with_sigil(name: Seq<u8>)
    ensures
        with_sigil(name).len() > 0,
        with_sigil(name)[0] == SIGIL,
        with_sigil(with_sigil(name)) == with_sigil(name),
        name.len() > 0 && name[0] == SIGIL ==> with_sigil(name) == name,
{
}

/// Marking an ID shown after it was marked hidden shows it again.
pub proof fn law_use_after_hide_shows(overlay: Map<DeclId, bool>, id: DeclId)
    ensures
        !visible_in(overlay.insert(id, false), id),
        visible_in(overlay.insert(id, false).insert(id, true), id),
{
}

} // verus!
