//! The committed tables are persistent vectors of the `im` crate: a clone
//! shares its structure with the vector it was made from, and a change to one
//! is not seen in the other. Verus does not look inside them. This file says
//! what is taken on trust of their methods.
//!
//! What a vector holds is given a name for each type of entry, and the trait
//! `TableEntry` leads from the type to that name, so that one statement about
//! a method serves the tables of all types. Where a vector is written while
//! it shares entries with a clone, it copies them first with `clone`; a copy
//! counts as the entry that it is a copy of.

use vstd::prelude::*;
use crate::declaration::{Block, Declaration};
use crate::files::SourceFile;
use crate::scope_frame::ScopeFrame;
use crate::ty::Type;

verus! {

/// `im::Vector`, whose inside is not described to Verus.
#[verifier::external_type_specification]
#[verifier::external_body]
#[verifier::reject_recursive_types(A)]
pub struct ExVector<A>(im::Vector<A>);

/// The source files that a vector holds, front to back.
pub uninterp spec fn file_entries(table: im::Vector<SourceFile>) -> Seq<SourceFile>;

/// The variable types that a vector holds, front to back.
pub uninterp spec fn var_entries(table: im::Vector<Type>) -> Seq<Type>;

/// The declarations that a vector holds, front to back.
pub uninterp spec fn decl_entries(table: im::Vector<Declaration>) -> Seq<Declaration>;

/// The blocks that a vector holds, front to back.
pub uninterp spec fn block_entries(table: im::Vector<Block>) -> Seq<Block>;

/// The scope frames that a vector holds, front to back.
pub uninterp spec fn frame_entries(table: im::Vector<ScopeFrame>) -> Seq<ScopeFrame>;

/// A type of table entry. `entries` is what a vector of such entries holds,
/// front to back: for each type of entry it is the one of the five functions
/// above that takes vectors of that type.
pub(crate) trait TableEntry: Clone + Sized {
    spec fn entries(table: im::Vector<Self>) -> Seq<Self>;
}

impl TableEntry for SourceFile {
    open spec fn entries(table: im::Vector<SourceFile>) -> Seq<SourceFile> {
        file_entries(table)
    }
}

impl TableEntry for Type {
    open spec fn entries(table: im::Vector<Type>) -> Seq<Type> {
        var_entries(table)
    }
}

impl TableEntry for Declaration {
    open spec fn entries(table: im::Vector<Declaration>) -> Seq<Declaration> {
        decl_entries(table)
    }
}

impl TableEntry for Block {
    open spec fn entries(table: im::Vector<Block>) -> Seq<Block> {
        block_entries(table)
    }
}

impl TableEntry for ScopeFrame {
    open spec fn entries(table: im::Vector<ScopeFrame>) -> Seq<ScopeFrame> {
        frame_entries(table)
    }
}

/// The five tables of a fresh state.
pub(crate) struct EmptyTables {
    pub files: im::Vector<SourceFile>,
    pub vars: im::Vector<Type>,
    pub decls: im::Vector<Declaration>,
    pub blocks: im::Vector<Block>,
    pub scope: im::Vector<ScopeFrame>,
}

/// Calls `im::Vector::new` once for each table. Trusted: a vector that `new`
/// returns holds nothing.
#[verifier::external_body]
pub(crate) fn empty_tables() -> (tables: EmptyTables)
    ensures
        file_entries(tables.files) == Seq::<SourceFile>::empty(),
        var_entries(tables.vars) == Seq::<Type>::empty(),
        decl_entries(tables.decls) == Seq::<Declaration>::empty(),
        block_entries(tables.blocks) == Seq::<Block>::empty(),
        frame_entries(tables.scope) == Seq::<ScopeFrame>::empty(),
{
    EmptyTables {
        files: im::Vector::new(),
        vars: im::Vector::new(),
        decls: im::Vector::new(),
        blocks: im::Vector::new(),
        scope: im::Vector::new(),
    }
}

/// Calls `im::Vector::len`. Trusted: the result is the number of entries that
/// the vector holds.
#[verifier::external_body]
pub(crate) fn table_len<A: TableEntry>(table: &im::Vector<A>) -> (len: usize)
    ensures
        len == A::entries(*table).len(),
{
    table.len()
}

/// Calls `im::Vector::get`. Trusted: for an index below the length the result
/// is the entry at that index, counted from the front; for any other index it
/// is `None`.
#[verifier::external_body]
pub(crate) fn table_get<A: TableEntry>(table: &im::Vector<A>, index: usize) -> (entry: Option<&A>)
    ensures
        index < A::entries(*table).len() ==> entry == Some(&A::entries(*table)[index as int]),
        index >= A::entries(*table).len() ==> entry.is_none(),
{
    table.get(index)
}

/// Calls `im::Vector::push_back`. Trusted: afterwards the vector holds what
/// it held before, followed by `entry`.
#[verifier::external_body]
pub(crate) fn table_push_back<A: TableEntry>(table: &mut im::Vector<A>, entry: A)
    ensures
        A::entries(*final(table)) == A::entries(*old(table)).push(entry),
{
    table.push_back(entry)
}

/// Calls `im::Vector::back_mut`. Trusted: for a vector that holds nothing the
/// result is `None` and the vector is unchanged; else the result refers to
/// the last entry, and what is written through it replaces that entry and
/// nothing else.
#[verifier::external_body]
pub(crate) fn table_back_mut<A: TableEntry>(table: &mut im::Vector<A>) -> (back: Option<&mut A>)
    ensures
        A::entries(*old(table)).len() == 0 ==> back.is_none() && A::entries(*final(table))
            == A::entries(*old(table)),
        A::entries(*old(table)).len() != 0 ==> back.is_some() && *back.unwrap() == A::entries(
            *old(table),
        ).last() && A::entries(*final(table)) == A::entries(*old(table)).update(
            A::entries(*old(table)).len() - 1,
            *final(back.unwrap()),
        ),
{
    table.back_mut()
}

/// Calls `clone` of `im::Vector`. Trusted: the clone holds what the vector
/// holds.
#[verifier::external_body]
pub(crate) fn table_clone<A: TableEntry>(table: &im::Vector<A>) -> (copy: im::Vector<A>)
    ensures
        A::entries(copy) == A::entries(*table),
{
    table.clone()
}

} // verus!
