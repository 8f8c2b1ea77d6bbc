//! How names resolve over a stack of scope frames. The last frame of a stack
//! is the innermost scope.

use vstd::prelude::*;
use crate::id::DeclId;
use crate::scope_frame::ScopeFrame;
use crate::span::Span;
use crate::visibility::visible_in;

verus! {

/// The namespaces of a scope frame that bind names to IDs.
#[derive(Clone, Copy, Debug, PartialEq, Eq, Structural)]
pub enum Namespace {
    Vars,
    Predecls,
    Decls,
    Modules,
}

/// The bindings of one namespace of a frame.
pub open spec fn bindings(frame: ScopeFrame, namespace: Namespace) -> Map<Seq<u8>, usize> {
    match namespace {
        Namespace::Vars => frame.vars@,
        Namespace::Predecls => frame.predecls@,
        Namespace::Decls => frame.decls@,
        Namespace::Modules => frame.modules@,
    }
}

/// Every frame of the stack is well formed.
pub open spec fn frames_wf(frames: Seq<ScopeFrame>) -> bool {
    forall|i: int| 0 <= i < frames.len() ==> (#[trigger] frames[i]).wf()
}

/// Every ID that the frame binds a name to is below the number of entries of
/// its kind: a variable below `vars`, a declaration or pre-declaration below
/// `decls`, a module below `blocks`.
pub open spec fn frame_ids_within(frame: ScopeFrame, vars: nat, decls: nat, blocks: nat) -> bool {
    &&& forall|name: Seq<u8>| #[trigger] frame.vars@.contains_key(name) ==> frame.vars@[name] < vars
    &&& forall|name: Seq<u8>| #[trigger]
        frame.predecls@.contains_key(name) ==> frame.predecls@[name] < decls
    &&& forall|name: Seq<u8>| #[trigger] frame.decls@.contains_key(name) ==> frame.decls@[name] < decls
    &&& forall|name: Seq<u8>| #[trigger]
        frame.modules@.contains_key(name) ==> frame.modules@[name] < blocks
}

/// Every ID that a frame of the stack binds a name to is below the number of
/// entries of its kind.
pub open spec fn ids_within(frames: Seq<ScopeFrame>, vars: nat, decls: nat, blocks: nat) -> bool {
    forall|i: int| 0 <= i < frames.len() ==> frame_ids_within(#[trigger] frames[i], vars, decls, blocks)
}

/// The marks of an outer overlay added to those gathered from the scopes
/// inside it: a mark from further inside wins.
pub open spec fn outer_marks_added(
    gathered: Map<DeclId, bool>,
    outer: Map<DeclId, bool>,
) -> Map<DeclId, bool> {
    outer.union_prefer_right(gathered)
}

/// The visibility marks gathered by walking the whole stack from the
/// innermost frame outwards, starting from the marks in `gathered`.
pub open spec fn marks_after(frames: Seq<ScopeFrame>, gathered: Map<DeclId, bool>) -> Map<
    DeclId,
    bool,
>
    decreases frames.len(),
{
    if frames.len() == 0 {
        gathered
    } else {
        marks_after(frames.drop_last(), outer_marks_added(gathered, frames.last().visibility@))
    }
}

/// The declaration that `name` resolves to in a stack of committed frames:
/// that of the innermost frame that binds the name to a declaration which the
/// marks gathered down to that frame show. `gathered` holds the marks of the
/// scopes inside the stack.
pub open spec fn visible_decl(
    frames: Seq<ScopeFrame>,
    name: Seq<u8>,
    gathered: Map<DeclId, bool>,
) -> Option<DeclId>
    decreases frames.len(),
{
    if frames.len() == 0 {
        None
    } else {
        let top = frames.last();
        let marks = outer_marks_added(gathered, top.visibility@);
        if top.decls@.contains_key(name) && visible_in(marks, top.decls@[name]) {
            Some(top.decls@[name])
        } else {
            visible_decl(frames.drop_last(), name, marks)
        }
    }
}

/// The index of the frame that decides what `visible_decl` answers.
pub open spec fn visible_decl_frame(
    frames: Seq<ScopeFrame>,
    name: Seq<u8>,
    gathered: Map<DeclId, bool>,
) -> Option<int>
    decreases frames.len(),
{
    if frames.len() == 0 {
        None
    } else {
        let top = frames.last();
        let marks = outer_marks_added(gathered, top.visibility@);
        if top.decls@.contains_key(name) && visible_in(marks, top.decls@[name]) {
            Some(frames.len() - 1)
        } else {
            visible_decl_frame(frames.drop_last(), name, marks)
        }
    }
}

/// The declaration that `name` resolves to in the frames of a working set:
/// that of the innermost frame which pre-declares the name, or which declares
/// it as a declaration that the marks gathered down to that frame show.
/// Within a frame a pre-declaration comes first, and no mark hides it.
/// `gathered` holds the marks of the scopes inside the stack.
pub open spec fn delta_decl(
    frames: Seq<ScopeFrame>,
    name: Seq<u8>,
    gathered: Map<DeclId, bool>,
) -> Option<DeclId>
    decreases frames.len(),
{
    if frames.len() == 0 {
        None
    } else {
        let top = frames.last();
        let marks = outer_marks_added(gathered, top.visibility@);
        if top.predecls@.contains_key(name) {
            Some(top.predecls@[name])
        } else if top.decls@.contains_key(name) && visible_in(marks, top.decls@[name]) {
            Some(top.decls@[name])
        } else {
            delta_decl(frames.drop_last(), name, marks)
        }
    }
}

/// The index of the frame that decides what `delta_decl` answers.
pub open spec fn delta_decl_frame(
    frames: Seq<ScopeFrame>,
    name: Seq<u8>,
    gathered: Map<DeclId, bool>,
) -> Option<int>
    decreases frames.len(),
{
    if frames.len() == 0 {
        None
    } else {
        let top = frames.last();
        let marks = outer_marks_added(gathered, top.visibility@);
        if top.predecls@.contains_key(name) || (top.decls@.contains_key(name) && visible_in(
            marks,
            top.decls@[name],
        )) {
            Some(frames.len() - 1)
        } else {
            delta_decl_frame(frames.drop_last(), name, marks)
        }
    }
}

/// The index of the innermost frame that declares `name`.
pub open spec fn innermost_decl_frame(frames: Seq<ScopeFrame>, name: Seq<u8>) -> Option<int>
    decreases frames.len(),
{
    if frames.len() == 0 {
        None
    } else if frames.last().decls@.contains_key(name) {
        Some(frames.len() - 1)
    } else {
        innermost_decl_frame(frames.drop_last(), name)
    }
}

/// The ID that `name` is bound to in the innermost frame that binds it in
/// the given namespace. Nothing hides such a binding but a binding of the
/// same name further inside.
pub open spec fn innermost_id(frames: Seq<ScopeFrame>, namespace: Namespace, name: Seq<u8>) -> Option<
    usize,
>
    decreases frames.len(),
{
    if frames.len() == 0 {
        None
    } else if bindings(frames.last(), namespace).contains_key(name) {
        Some(bindings(frames.last(), namespace)[name])
    } else {
        innermost_id(frames.drop_last(), namespace, name)
    }
}

/// The replacement that `name` stands for in the innermost frame that has it
/// as an alias.
pub open spec fn innermost_alias(frames: Seq<ScopeFrame>, name: Seq<u8>) -> Option<Vec<Span>>
    decreases frames.len(),
{
    if frames.len() == 0 {
        None
    } else if frames.last().aliases@.contains_key(name) {
        Some(frames.last().aliases@[name])
    } else {
        innermost_alias(frames.drop_last(), name)
    }
}

/// The names among `names` that begin with `prefix`, in their order.
pub open spec fn names_with_prefix(names: Seq<Seq<u8>>, prefix: Seq<u8>) -> Seq<Seq<u8>> {
    names.filter(|name: Seq<u8>| prefix.is_prefix_of(name))
}

/// The declared names that begin with `prefix`, frame by frame from the
/// innermost outwards, within a frame in the order of its bindings.
pub open spec fn commands_with_prefix(frames: Seq<ScopeFrame>, prefix: Seq<u8>) -> Seq<Seq<u8>>
    decreases frames.len(),
{
    if frames.len() == 0 {
        Seq::empty()
    } else {
        names_with_prefix(frames.last().decls.names(), prefix) + commands_with_prefix(
            frames.drop_last(),
            prefix,
        )
    }
}

/// Whether the frame declares a name that begins with `prefix`.
pub open spec fn frame_has_prefix(frame: ScopeFrame, prefix: Seq<u8>) -> bool {
    exists|k: int|
        0 <= k < frame.decls.names().len() && prefix.is_prefix_of(#[trigger] frame.decls.names()[k])
}

/// Whether some frame declares a name that begins with `prefix`.
pub open spec fn some_decl_has_prefix(frames: Seq<ScopeFrame>, prefix: Seq<u8>) -> bool {
    exists|i: int| 0 <= i < frames.len() && frame_has_prefix(#[trigger] frames[i], prefix)
}

/// What a name resolves to among committed frames is an ID that one of the
/// frames binds it to.
pub proof fn lemma_visible_decl_within(
    frames: Seq<ScopeFrame>,
    name: Seq<u8>,
    gathered: Map<DeclId, bool>,
    vars: nat,
    decls: nat,
    blocks: nat,
)
    requires
        ids_within(frames, vars, decls, blocks),
    ensures
        visible_decl(frames, name, gathered) matches Some(decl_id) ==> decl_id < decls,
{
    lemma_visible_decl_frame(frames, name, gathered);
}

/// What a name resolves to among the frames of a working set is an ID that
/// one of the frames binds it to.
pub proof fn lemma_delta_decl_within(
    frames: Seq<ScopeFrame>,
    name: Seq<u8>,
    gathered: Map<DeclId, bool>,
    vars: nat,
    decls: nat,
    blocks: nat,
)
    requires
        ids_within(frames, vars, decls, blocks),
    ensures
        delta_decl(frames, name, gathered) matches Some(decl_id) ==> decl_id < decls,
    decreases frames.len(),
{
    if frames.len() > 0 {
        assert(frame_ids_within(frames[frames.len() - 1], vars, decls, blocks));
        assert forall|i: int| 0 <= i < frames.drop_last().len() implies frame_ids_within(
            #[trigger] frames.drop_last()[i],
            vars,
            decls,
            blocks,
        ) by {
            assert(frames.drop_last()[i] == frames[i]);
        }
        lemma_delta_decl_within(
            frames.drop_last(),
            name,
            outer_marks_added(gathered, frames.last().visibility@),
            vars,
            decls,
            blocks,
        );
    }
}

/// What a name resolves to in a namespace is an ID that one of the frames
/// binds it to.
pub proof fn lemma_innermost_id_within(
    frames: Seq<ScopeFrame>,
    namespace: Namespace,
    name: Seq<u8>,
    vars: nat,
    decls: nat,
    blocks: nat,
)
    requires
        ids_within(frames, vars, decls, blocks),
    ensures
        innermost_id(frames, namespace, name) matches Some(id) ==> id < (match namespace {
            Namespace::Vars => vars,
            Namespace::Predecls => decls,
            Namespace::Decls => decls,
            Namespace::Modules => blocks,
        }),
    decreases frames.len(),
{
    if frames.len() > 0 {
        assert(frame_ids_within(frames[frames.len() - 1], vars, decls, blocks));
        assert forall|i: int| 0 <= i < frames.drop_last().len() implies frame_ids_within(
            #[trigger] frames.drop_last()[i],
            vars,
            decls,
            blocks,
        ) by {
            assert(frames.drop_last()[i] == frames[i]);
        }
        lemma_innermost_id_within(frames.drop_last(), namespace, name, vars, decls, blocks);
    }
}

/// `visible_decl` answers with what the deciding frame binds the name to.
pub proof fn lemma_visible_decl_frame(
    frames: Seq<ScopeFrame>,
    name: Seq<u8>,
    gathered: Map<DeclId, bool>,
)
    ensures
        match visible_decl_frame(frames, name, gathered) {
            Some(k) => 0 <= k < frames.len() && frames[k].decls@.contains_key(name) && visible_decl(
                frames,
                name,
                gathered,
            ) == Some(frames[k].decls@[name]),
            None => visible_decl(frames, name, gathered).is_none(),
        },
    decreases frames.len(),
{
    if frames.len() > 0 {
        let top = frames.last();
        let marks = outer_marks_added(gathered, top.visibility@);
        lemma_visible_decl_frame(frames.drop_last(), name, marks);
        match visible_decl_frame(frames.drop_last(), name, marks) {
            Some(k) => {
                assert(frames.drop_last()[k] == frames[k]);
            },
            None => {},
        }
    }
}

/// Hiding one more declaration moves the frame that decides outwards, if it
/// moves it at all, and the frame that decides then does not bind the name to
/// the hidden declaration.
pub proof fn lemma_hiding_moves_outwards(
    frames: Seq<ScopeFrame>,
    name: Seq<u8>,
    gathered: Map<DeclId, bool>,
    hidden: DeclId,
)
    ensures
        match visible_decl_frame(frames, name, gathered.insert(hidden, false)) {
            Some(k) => 0 <= k < frames.len() && frames[k].decls@[name] != hidden && (
            visible_decl_frame(frames, name, gathered) matches Some(j) && k <= j),
            None => true,
        },
    decreases frames.len(),
{
    if frames.len() > 0 {
        let top = frames.last();
        let marks = outer_marks_added(gathered, top.visibility@);
        let more = outer_marks_added(gathered.insert(hidden, false), top.visibility@);
        assert(more =~= marks.insert(hidden, false));
        lemma_hiding_moves_outwards(frames.drop_last(), name, marks, hidden);
        lemma_visible_decl_frame(frames.drop_last(), name, marks);
        match visible_decl_frame(frames.drop_last(), name, more) {
            Some(k) => {
                assert(frames.drop_last()[k] == frames[k]);
            },
            None => {},
        }
    }
}

/// A mark that was gathered further inside stays as it is when the marks of
/// the frames around are added.
pub proof fn lemma_inner_mark_stays(
    frames: Seq<ScopeFrame>,
    gathered: Map<DeclId, bool>,
    id: DeclId,
    shown: bool,
)
    ensures
        marks_after(frames, gathered.insert(id, shown)) == marks_after(frames, gathered).insert(
            id,
            shown,
        ),
    decreases frames.len(),
{
    if frames.len() > 0 {
        let outer = frames.last().visibility@;
        assert(outer_marks_added(gathered.insert(id, shown), outer) =~= outer_marks_added(
            gathered,
            outer,
        ).insert(id, shown));
        lemma_inner_mark_stays(frames.drop_last(), outer_marks_added(gathered, outer), id, shown);
    }
}

/// `delta_decl` answers with what the deciding frame binds the name to: with
/// its pre-declaration where it has one, else with its declaration.
pub proof fn lemma_delta_decl_frame(
    frames: Seq<ScopeFrame>,
    name: Seq<u8>,
    gathered: Map<DeclId, bool>,
)
    ensures
        match delta_decl_frame(frames, name, gathered) {
            Some(k) => 0 <= k < frames.len() && (frames[k].predecls@.contains_key(name)
                || frames[k].decls@.contains_key(name)) && delta_decl(frames, name, gathered)
                == Some(
                if frames[k].predecls@.contains_key(name) {
                    frames[k].predecls@[name]
                } else {
                    frames[k].decls@[name]
                },
            ),
            None => delta_decl(frames, name, gathered).is_none(),
        },
    decreases frames.len(),
{
    if frames.len() > 0 {
        let marks = outer_marks_added(gathered, frames.last().visibility@);
        lemma_delta_decl_frame(frames.drop_last(), name, marks);
        match delta_decl_frame(frames.drop_last(), name, marks) {
            Some(k) => {
                assert(frames.drop_last()[k] == frames[k]);
            },
            None => {},
        }
    }
}

/// Where the frames from index `k` on neither pre-declare nor declare a name,
/// the name is decided further out than `k`, if at all.
pub proof fn lemma_decided_outside(
    frames: Seq<ScopeFrame>,
    name: Seq<u8>,
    gathered: Map<DeclId, bool>,
    k: int,
)
    requires
        0 <= k,
        forall|j: int|
            k <= j < frames.len() ==> !(#[trigger] frames[j]).predecls@.contains_key(name)
                && !frames[j].decls@.contains_key(name),
    ensures
        delta_decl_frame(frames, name, gathered) matches Some(found) ==> found < k,
    decreases frames.len(),
{
    if frames.len() > k {
        let front = frames.drop_last();
        assert(!frames[frames.len() - 1].predecls@.contains_key(name));
        assert forall|j: int| k <= j < front.len() implies !(
        #[trigger] front[j]).predecls@.contains_key(name) && !front[j].decls@.contains_key(
            name,
        ) by {
            assert(front[j] == frames[j]);
        }
        lemma_decided_outside(
            front,
            name,
            outer_marks_added(gathered, frames.last().visibility@),
            k,
        );
    } else {
        lemma_delta_decl_frame(frames, name, gathered);
    }
}

/// No frame inside the one that decides a name pre-declares the name; where
/// no frame decides it, none pre-declares it.
pub proof fn lemma_no_predecl_inside(
    frames: Seq<ScopeFrame>,
    name: Seq<u8>,
    gathered: Map<DeclId, bool>,
)
    ensures
        forall|j: int|
            0 <= j < frames.len() && (delta_decl_frame(frames, name, gathered) matches Some(k)
                ==> k < j) ==> !(#[trigger] frames[j]).predecls@.contains_key(name),
    decreases frames.len(),
{
    if frames.len() > 0 {
        let front = frames.drop_last();
        let marks = outer_marks_added(gathered, frames.last().visibility@);
        lemma_no_predecl_inside(front, name, marks);
        lemma_delta_decl_frame(front, name, marks);
        assert forall|j: int|
            0 <= j < frames.len() && (delta_decl_frame(frames, name, gathered) matches Some(k)
                ==> k < j) implies !(#[trigger] frames[j]).predecls@.contains_key(name) by {
            if j < front.len() {
                assert(front[j] == frames[j]);
            }
        }
    }
}

/// Looking a name up in a stack is looking it up in the inner part of the
/// stack and, where that binds nothing, in the outer part.
pub proof fn lemma_innermost_id_split(
    outer: Seq<ScopeFrame>,
    inner: Seq<ScopeFrame>,
    namespace: Namespace,
    name: Seq<u8>,
)
    ensures
        innermost_id(outer + inner, namespace, name) == match innermost_id(inner, namespace, name) {
            Some(id) => Some(id),
            None => innermost_id(outer, namespace, name),
        },
    decreases inner.len(),
{
    if inner.len() == 0 {
        assert(outer + inner =~= outer);
    } else {
        assert((outer + inner).drop_last() =~= outer + inner.drop_last());
        assert((outer + inner).last() == inner.last());
        lemma_innermost_id_split(outer, inner.drop_last(), namespace, name);
    }
}

/// Looking an alias up in a stack is looking it up in the inner part of the
/// stack and, where that has none, in the outer part.
pub proof fn lemma_innermost_alias_split(
    outer: Seq<ScopeFrame>,
    inner: Seq<ScopeFrame>,
    name: Seq<u8>,
)
    ensures
        innermost_alias(outer + inner, name) == match innermost_alias(inner, name) {
            Some(spans) => Some(spans),
            None => innermost_alias(outer, name),
        },
    decreases inner.len(),
{
    if inner.len() == 0 {
        assert(outer + inner =~= outer);
    } else {
        assert((outer + inner).drop_last() =~= outer + inner.drop_last());
        assert((outer + inner).last() == inner.last());
        lemma_innermost_alias_split(outer, inner.drop_last(), name);
    }
}

/// What `innermost_decl_frame` finds: a frame that declares the name, inside
/// which no frame declares it; or that no frame declares it.
pub proof fn lemma_innermost_decl_frame(frames: Seq<ScopeFrame>, name: Seq<u8>)
    ensures
        match innermost_decl_frame(frames, name) {
            Some(k) => 0 <= k < frames.len() && frames[k].decls@.contains_key(name) && forall|
                j: int,
            |
                k < j < frames.len() ==> !(#[trigger] frames[j]).decls@.contains_key(name),
            None => forall|j: int|
                0 <= j < frames.len() ==> !(#[trigger] frames[j]).decls@.contains_key(name),
        },
    decreases frames.len(),
{
    if frames.len() > 0 {
        let front = frames.drop_last();
        lemma_innermost_decl_frame(front, name);
        assert forall|j: int| 0 <= j < front.len() implies front[j] == frames[j] by {}
        if !frames.last().decls@.contains_key(name) {
            match innermost_decl_frame(front, name) {
                Some(k) => {
                    assert(front[k] == frames[k]);
                    assert forall|j: int| k < j < frames.len() implies !(
                    #[trigger] frames[j]).decls@.contains_key(name) by {
                        if j < front.len() {
                            assert(front[j] == frames[j]);
                        }
                    }
                },
                None => {
                    assert forall|j: int| 0 <= j < frames.len() implies !(
                    #[trigger] frames[j]).decls@.contains_key(name) by {
                        if j < front.len() {
                            assert(front[j] == frames[j]);
                        }
                    }
                },
            }
        }
    }
}

/// A stack whose innermost frame was replaced by a well-formed frame is well formed.
pub proof fn lemma_top_replaced(before: Seq<ScopeFrame>, after: Seq<ScopeFrame>)
    requires
        frames_wf(before),
        before.len() > 0,
        after.len() == before.len(),
        after.last().wf(),
        forall|i: int| 0 <= i < before.len() - 1 ==> after[i] == before[i],
    ensures
        frames_wf(after),
        after.drop_last() == before.drop_last(),
{
    assert(after.drop_last() =~= before.drop_last());
}

} // verus!
