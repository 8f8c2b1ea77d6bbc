//! One lexical scope: what names are bound to, and which declarations the
//! scope hides or shows.

use vstd::prelude::*;
use crate::bytes::{byte_strings, starts_with};
use crate::id::{BlockId, DeclId, VarId};
use crate::name_map::{lemma_filter_last, names_not_in, NameMap};
use crate::resolve::{bindings, frame_has_prefix, names_with_prefix, Namespace};
use crate::span::Span;
use crate::visibility::Visibility;

verus! {

/// The bindings of one lexical scope. Variables, declarations,
/// pre-declarations, aliases and modules each have a namespace of their own.
#[derive(Clone, Debug)]
pub struct ScopeFrame {
    pub vars: NameMap<VarId>,
    pub predecls: NameMap<DeclId>,
    pub decls: NameMap<DeclId>,
    pub aliases: NameMap<Vec<Span>>,
    pub modules: NameMap<BlockId>,
    pub visibility: Visibility,
}

/// A scope frame as a mathematical value: each namespace as a map, and the
/// marks of the visibility overlay.
pub struct ScopeFrameView {
    pub vars: Map<Seq<u8>, VarId>,
    pub predecls: Map<Seq<u8>, DeclId>,
    pub decls: Map<Seq<u8>, DeclId>,
    /// The declared names in the order in which the frame lists them.
    pub decl_names: Seq<Seq<u8>>,
    pub aliases: Map<Seq<u8>, Vec<Span>>,
    pub modules: Map<Seq<u8>, BlockId>,
    pub visibility: Map<DeclId, bool>,
}

impl View for ScopeFrame {
    type V = ScopeFrameView;

    open spec fn view(&self) -> ScopeFrameView {
        ScopeFrameView {
            vars: self.vars@,
            predecls: self.predecls@,
            decls: self.decls@,
            decl_names: self.decls.names(),
            aliases: self.aliases@,
            modules: self.modules@,
            visibility: self.visibility@,
        }
    }
}

impl ScopeFrameView {
    /// A frame that binds nothing and marks nothing.
    pub open spec fn empty() -> ScopeFrameView {
        ScopeFrameView {
            vars: Map::empty(),
            predecls: Map::empty(),
            decls: Map::empty(),
            decl_names: Seq::empty(),
            aliases: Map::empty(),
            modules: Map::empty(),
            visibility: Map::empty(),
        }
    }

    /// The frame with `name` declared as `decl_id` and that declaration marked
    /// shown. A name that the frame did not declare goes to the end of its list.
    pub open spec fn declare(self, name: Seq<u8>, decl_id: DeclId) -> ScopeFrameView {
        ScopeFrameView {
            decls: self.decls.insert(name, decl_id),
            decl_names: if self.decls.contains_key(name) {
                self.decl_names
            } else {
                self.decl_names.push(name)
            },
            visibility: self.visibility.insert(decl_id, true),
            ..self
        }
    }

    /// The frame without its declaration of `name`.
    pub open spec fn undeclare(self, name: Seq<u8>) -> ScopeFrameView {
        ScopeFrameView {
            decls: self.decls.remove(name),
            decl_names: if self.decls.contains_key(name) {
                self.decl_names.remove(self.decl_names.index_of(name))
            } else {
                self.decl_names
            },
            ..self
        }
    }
}

impl ScopeFrame {
    /// No namespace binds a name twice.
    pub open spec fn wf(&self) -> bool {
        &&& self.vars.wf()
        &&& self.predecls.wf()
        &&& self.decls.wf()
        &&& self.aliases.wf()
        &&& self.modules.wf()
    }

    /// Nothing is bound and nothing is marked.
    pub open spec fn is_empty(&self) -> bool {
        self@ == ScopeFrameView::empty()
    }

    /// A frame that binds nothing.
    pub fn new() -> (frame: Self)
        ensures
            frame.wf(),
            frame.is_empty(),
    {
        ScopeFrame {
            vars: NameMap::new(),
            predecls: NameMap::new(),
            decls: NameMap::new(),
            aliases: NameMap::new(),
            modules: NameMap::new(),
            visibility: Visibility::new(),
        }
    }

    /// The variable that `var_name` is bound to in this frame.
    pub fn get_var(&self, var_name: &[u8]) -> (var_id: Option<&VarId>)
        requires
            self.wf(),
        ensures
            self.vars@.contains_key(var_name@) ==> var_id == Some(&self.vars@[var_name@]),
            !self.vars@.contains_key(var_name@) ==> var_id.is_none(),
    {
        self.vars.get(var_name)
    }
}

impl Default for ScopeFrame {
    fn default() -> (frame: Self)
        ensures
            frame.wf(),
            frame.is_empty(),
    {
        Self::new()
    }
}

/// Whether every ID that a name is bound to is below `bound`; a bound that
/// fits no machine integer is above every ID.
pub(crate) fn ids_below(map: &NameMap<usize>, bound: Option<usize>) -> (ok: bool)
    requires
        map.wf(),
    ensures
        ok == (forall|name: Seq<u8>| #[trigger]
            map@.contains_key(name) ==> (bound.is_some() ==> map@[name] < bound.unwrap())),
{
    match bound {
        Some(limit) => map.all_below(limit),
        None => true,
    }
}

/// The bindings of one namespace of a frame.
pub(crate) fn ids_of(frame: &ScopeFrame, namespace: Namespace) -> (map: &NameMap<usize>)
    requires
        frame.wf(),
    ensures
        map.wf(),
        map@ == bindings(*frame, namespace),
{
    match namespace {
        Namespace::Vars => &frame.vars,
        Namespace::Predecls => &frame.predecls,
        Namespace::Decls => &frame.decls,
        Namespace::Modules => &frame.modules,
    }
}

/// Whether the frame declares a name that begins with `prefix`.
pub(crate) fn declares_prefix(frame: &ScopeFrame, prefix: &[u8]) -> (found: bool)
    ensures
        found == frame_has_prefix(*frame, prefix@),
{
    let n = frame.decls.len();
    let mut k: usize = 0;
    while k < n
        invariant
            n == frame.decls.names().len(),
            k <= n,
            forall|j: int| 0 <= j < k ==> !prefix@.is_prefix_of(#[trigger] frame.decls.names()[j]),
        decreases n - k,
    {
        if starts_with(frame.decls.name_at(k).as_slice(), prefix) {
            return true;
        }
        k += 1;
    }
    false
}

/// The byte that begins the name of every variable: `$`.
pub const SIGIL: u8 = 36;

/// The name under which a variable is bound: `name` itself where it begins
/// with `$`, else `name` with a `$` before it.
pub open spec fn with_sigil(name: Seq<u8>) -> Seq<u8> {
    if name.len() > 0 && name[0] == SIGIL {
        name
    } else {
        seq![SIGIL] + name
    }
}

/// A list of names with declaration IDs as a sequence of pairs.
pub open spec fn overlay_view(overlay: Seq<(Vec<u8>, DeclId)>) -> Seq<(Seq<u8>, DeclId)> {
    Seq::new(overlay.len(), |i: int| (overlay[i].0@, overlay[i].1))
}

/// A frame after the pairs of an overlay were bound in it, one after the other.
pub open spec fn activated(frame: ScopeFrameView, pairs: Seq<(Seq<u8>, DeclId)>) -> ScopeFrameView
    decreases pairs.len(),
{
    if pairs.len() == 0 {
        frame
    } else {
        activated(frame, pairs.drop_last()).declare(pairs.last().0, pairs.last().1)
    }
}

/// `merged` is `into` with the bindings and marks of `from` folded in: where
/// both bind a name or mark an ID, `from` decides. Pre-declarations stay as
/// they are in `into`.
pub open spec fn folded(into: ScopeFrame, from: ScopeFrame, merged: ScopeFrame) -> bool {
    &&& merged.wf()
    &&& merged.decls@ == into.decls@.union_prefer_right(from.decls@)
    &&& merged.decls.names() == into.decls.names() + names_not_in(
        from.decls.names(),
        into.decls@.dom(),
    )
    &&& merged.vars@ == into.vars@.union_prefer_right(from.vars@)
    &&& merged.aliases@ == into.aliases@.union_prefer_right(from.aliases@)
    &&& merged.modules@ == into.modules@.union_prefer_right(from.modules@)
    &&& merged.visibility@ == into.visibility@.union_prefer_right(from.visibility@)
    &&& merged.predecls == into.predecls
}

/// Appends to `output` the names that `scope` declares and that begin with `prefix`.
pub(crate) fn push_names_with_prefix(output: &mut Vec<Vec<u8>>, scope: &ScopeFrame, prefix: &[u8])
    ensures
        byte_strings(final(output)@) == byte_strings(old(output)@) + names_with_prefix(
            scope.decls.names(),
            prefix@,
        ),
{
    let ghost before = byte_strings(output@);
    let ghost names = scope.decls.names();
    let ghost wanted = |name: Seq<u8>| prefix@.is_prefix_of(name);
    let n = scope.decls.len();
    let mut k: usize = 0;
    assert(names.subrange(0, 0) =~= Seq::<Seq<u8>>::empty());
    assert(byte_strings(output@) =~= before + names.subrange(0, 0).filter(wanted));
    while k < n
        invariant
            names == scope.decls.names(),
            n == names.len(),
            k <= n,
            wanted == |name: Seq<u8>| prefix@.is_prefix_of(name),
            byte_strings(output@) == before + names.subrange(0, k as int).filter(wanted),
        decreases n - k,
    {
        let name = scope.decls.name_at(k);
        proof {
            let upto = names.subrange(0, k + 1);
            assert(upto.drop_last() =~= names.subrange(0, k as int));
            assert(upto.last() == names[k as int]);
            lemma_filter_last(upto, wanted);
        }
        if starts_with(name.as_slice(), prefix) {
            let ghost pushed = byte_strings(output@);
            output.push(name.clone());
            assert(byte_strings(output@) =~= pushed.push(name@));
        }
        k += 1;
    }
    assert(names.subrange(0, n as int) =~= names);
}

} // verus!
