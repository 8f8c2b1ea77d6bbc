//! Declarations and blocks, the entries of two of the identity tables.

use vstd::prelude::*;
use vstd::slice::slice_to_vec;
use vstd::utf8::encode_utf8;
use crate::id::{BlockId, DeclId};
use crate::signature::{
    clone_examples, examples_view, Example, ExampleView, Signature, SignatureView,
};
use crate::span::Span;

verus! {

/// A parsed block of code: the spans of its statements, and the declarations
/// that it offers to a scope that imports it.
#[derive(Clone, Debug)]
pub struct Block {
    pub stmts: Vec<Span>,
    pub exports: Vec<(Vec<u8>, DeclId)>,
}

impl Block {
    /// A block without statements or exports.
    pub fn new() -> (block: Block)
        ensures
            block.stmts@.len() == 0,
            block.exports@.len() == 0,
    {
        Block { stmts: Vec::new(), exports: Vec::new() }
    }
}

/// A command as the engine sees it: what it is called, what it expects, its
/// help texts and examples, and the block that defines it where it is not
/// built in.
#[derive(Debug)]
pub struct Declaration {
    pub name: String,
    pub signature: Signature,
    pub usage: String,
    pub extra_usage: String,
    pub examples: Vec<Example>,
    pub block_id: Option<BlockId>,
}

/// A declaration as a mathematical value.
pub struct DeclarationView {
    pub name: Seq<char>,
    pub signature: SignatureView,
    pub usage: Seq<char>,
    pub extra_usage: Seq<char>,
    pub examples: Seq<ExampleView>,
    pub block_id: Option<BlockId>,
}

impl View for Declaration {
    type V = DeclarationView;

    open spec fn view(&self) -> DeclarationView {
        DeclarationView {
            name: self.name@,
            signature: self.signature@,
            usage: self.usage@,
            extra_usage: self.extra_usage@,
            examples: examples_view(self.examples@),
            block_id: self.block_id,
        }
    }
}

impl Clone for Declaration {
    fn clone(&self) -> (copy: Self)
        ensures
            copy@ == self@,
    {
        Declaration {
            name: self.name.clone(),
            signature: self.signature.clone(),
            usage: self.usage.clone(),
            extra_usage: self.extra_usage.clone(),
            examples: clone_examples(&self.examples),
            block_id: self.block_id,
        }
    }
}

impl Declaration {
    /// A built-in command with the given name, signature and usage text, without
    /// further help and without examples.
    pub fn new(name: &str, signature: Signature, usage: &str) -> (decl: Declaration)
        ensures
            decl@ == (DeclarationView {
                name: name@,
                signature: signature@,
                usage: usage@,
                extra_usage: Seq::empty(),
                examples: Seq::empty(),
                block_id: None,
            }),
    {
        let decl = Declaration {
            name: name.to_owned(),
            signature,
            usage: usage.to_owned(),
            extra_usage: String::new(),
            examples: Vec::new(),
            block_id: None,
        };
        assert(examples_view(decl.examples@) =~= Seq::empty());
        decl
    }

    /// The name of the command as the bytes under which a scope binds it.
    pub open spec fn spec_name_bytes(&self) -> Seq<u8> {
        encode_utf8(self.name@)
    }

    /// The name of the command as the bytes under which a scope binds it.
    pub fn name_bytes(&self) -> (bytes: Vec<u8>)
        ensures
            bytes@ == self.spec_name_bytes(),
    {
        slice_to_vec(self.name.as_str().as_bytes())
    }

    /// What the command is called.
    pub fn name(&self) -> (name: &str)
        ensures
            name@ == self@.name,
    {
        self.name.as_str()
    }

    /// What the command expects of a call.
    pub fn signature(&self) -> (signature: Signature)
        ensures
            signature@ == self@.signature,
    {
        self.signature.clone()
    }

    /// What the command does, in a line.
    pub fn usage(&self) -> (usage: &str)
        ensures
            usage@ == self@.usage,
    {
        self.usage.as_str()
    }

    /// What more there is to say of the command.
    pub fn extra_usage(&self) -> (extra_usage: &str)
        ensures
            extra_usage@ == self@.extra_usage,
    {
        self.extra_usage.as_str()
    }

    /// Sample calls of the command.
    pub fn examples(&self) -> (examples: Vec<Example>)
        ensures
            examples_view(examples@) == self@.examples,
    {
        clone_examples(&self.examples)
    }

    /// The block that defines the command; none for a built-in command.
    pub fn get_block_id(&self) -> (block_id: Option<BlockId>)
        ensures
            block_id == self@.block_id,
    {
        self.block_id
    }
}

/// The signature of a declaration with the declaration's help texts in it.
pub open spec fn filled_signature(decl: DeclarationView) -> SignatureView {
    SignatureView { usage: decl.usage, extra_usage: decl.extra_usage, ..decl.signature }
}

/// The filled-in signatures of the declarations that no block defines, in order.
pub open spec fn builtin_signatures(decls: Seq<Declaration>) -> Seq<SignatureView>
    decreases decls.len(),
{
    if decls.len() == 0 {
        Seq::empty()
    } else if decls.last().block_id.is_none() {
        builtin_signatures(decls.drop_last()).push(filled_signature(decls.last()@))
    } else {
        builtin_signatures(decls.drop_last())
    }
}

/// The filled-in signatures of the declarations that no block defines, in
/// order, each with the examples of its declaration.
pub open spec fn builtin_signatures_with_examples(decls: Seq<Declaration>) -> Seq<
    (SignatureView, Seq<ExampleView>),
>
    decreases decls.len(),
{
    if decls.len() == 0 {
        Seq::empty()
    } else if decls.last().block_id.is_none() {
        builtin_signatures_with_examples(decls.drop_last()).push(
            (filled_signature(decls.last()@), decls.last()@.examples),
        )
    } else {
        builtin_signatures_with_examples(decls.drop_last())
    }
}

/// The views of a list of signatures, element by element.
pub open spec fn signatures_view(list: Seq<Signature>) -> Seq<SignatureView> {
    Seq::new(list.len(), |i: int| list[i]@)
}

/// The views of a list of signatures with examples, element by element.
pub open spec fn signed_examples_view(list: Seq<(Signature, Vec<Example>)>) -> Seq<
    (SignatureView, Seq<ExampleView>),
> {
    Seq::new(list.len(), |i: int| (list[i].0@, examples_view(list[i].1@)))
}

} // verus!
