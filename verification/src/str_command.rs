//! The command `str`, under which the string commands are gathered.

use vstd::prelude::*;
use crate::declaration::{Declaration, DeclarationView};
use crate::signature::{Example, Signature};
use crate::span::Span;
use crate::value::{Value, ValueView};

verus! {

/// The command `str`. Called by itself it shows its help.
#[derive(Clone, Copy, Debug)]
pub struct Str;

impl Str {
    /// What the command is called.
    pub fn name(&self) -> (name: &'static str)
        ensures
            name@ == "str"@,
    {
        "str"
    }

    /// What the command expects of a call: nothing.
    pub fn signature(&self) -> (signature: Signature)
        ensures
            signature@ == Signature::spec_new("str"@),
    {
        Signature::build("str")
    }

    /// What the command does, in a line.
    pub fn usage(&self) -> (usage: &'static str)
        ensures
            usage@ == "Various commands for working with string data."@,
    {
        "Various commands for working with string data."
    }

    /// Sample calls of the command: there are none.
    pub fn examples(&self) -> (examples: Vec<Example>)
        ensures
            examples@.len() == 0,
    {
        Vec::new()
    }

    /// The command as a declaration.
    pub fn declaration(&self) -> (decl: Declaration)
        ensures
            decl@ == (DeclarationView {
                name: "str"@,
                signature: Signature::spec_new("str"@),
                usage: "Various commands for working with string data."@,
                extra_usage: Seq::empty(),
                examples: Seq::empty(),
                block_id: None,
            }),
    {
        Declaration::new(self.name(), self.signature(), self.usage())
    }

    /// What a call of the command gives: its help text, as a string value at
    /// the place `head` of the call.
    pub fn run(&self, full_help: String, head: Span) -> (output: Value)
        ensures
            output@ == (ValueView::String { val: full_help@, span: head }),
    {
        Value::String { val: full_help, span: head }
    }
}

} // verus!
