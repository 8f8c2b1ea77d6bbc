//! The command `mkdir`: what it expects, and what it makes of the outcome of
//! creating each directory. Creating the directories is the caller's part.

use vstd::prelude::*;
use vstd::string::StringExecFns;
use crate::declaration::{Declaration, DeclarationView};
use crate::signature::{FlagView, PositionalArgView, Signature, SignatureView};
use crate::span::Span;
use crate::ty::SyntaxShape;
use crate::value::{ShellError, ShellErrorView, Value, ValueView};

verus! {

/// The command `mkdir`.
#[derive(Clone, Copy, Debug)]
pub struct Mkdir;

impl Mkdir {
    /// The signature of the command.
    pub open spec fn spec_signature() -> SignatureView {
        SignatureView {
            rest_positional: Some(
                PositionalArgView {
                    name: "rest"@,
                    desc: "the name(s) of the path(s) to create"@,
                    shape: SyntaxShape::Filepath,
                },
            ),
            named: seq![
                FlagView {
                    long: "show-created-paths"@,
                    short: Some('s'),
                    arg: None,
                    required: false,
                    desc: "show the path(s) created."@,
                },
            ],
            ..Signature::spec_new("mkdir"@)
        }
    }

    /// What the command is called.
    pub fn name(&self) -> (name: &'static str)
        ensures
            name@ == "mkdir"@,
    {
        "mkdir"
    }

    /// What the command expects of a call: any number of paths, and
    /// optionally the switch that makes it list what it created.
    pub fn signature(&self) -> (signature: Signature)
        ensures
            signature@ == Self::spec_signature(),
    {
        let signature = Signature::build("mkdir").rest(
            "rest",
            SyntaxShape::Filepath,
            "the name(s) of the path(s) to create",
        ).switch("show-created-paths", "show the path(s) created.", Some('s'));
        assert(signature@.named =~= Self::spec_signature().named);
        signature
    }

    /// What the command does, in a line.
    pub fn usage(&self) -> (usage: &'static str)
        ensures
            usage@ == "Make directories, creates intermediary directories as required."@,
    {
        "Make directories, creates intermediary directories as required."
    }

    /// The command as a declaration.
    pub fn declaration(&self) -> (decl: Declaration)
        ensures
            decl@ == (DeclarationView {
                name: "mkdir"@,
                signature: Self::spec_signature(),
                usage: "Make directories, creates intermediary directories as required."@,
                extra_usage: Seq::empty(),
                examples: Seq::empty(),
                block_id: None,
            }),
    {
        Declaration::new(self.name(), self.signature(), self.usage())
    }

    /// Refuses a call that names no directory.
    pub fn check_directories(&self, count: usize, head: Span) -> (checked: Result<(), ShellError>)
        ensures
            count > 0 ==> checked.is_ok(),
            count == 0 ==> checked.is_err() && checked.unwrap_err()@
                == ShellErrorView::MissingParameter("requires directory paths"@, head),
    {
        if count == 0 {
            Err(ShellError::MissingParameter("requires directory paths".to_owned(), head))
        } else {
            Ok(())
        }
    }

    /// What follows from the attempt to create one directory. `failure` is the
    /// reason that the system gave where it could not create the directory. A
    /// failure ends the command with an error at `span`, the place of the
    /// argument. A success adds the path to the output where the switch asked
    /// for it, and nothing otherwise.
    pub fn after_create(
        &self,
        failure: Option<String>,
        path: String,
        span: Span,
        show_created_paths: bool,
    ) -> (step: Result<Option<Value>, ShellError>)
        ensures
            match failure {
                Some(reason) => step.is_err() && step.unwrap_err()@
                    == ShellErrorView::CreateNotPossible(
                    "failed to create directory: "@ + reason@,
                    span,
                ),
                None => step.is_ok() && (if show_created_paths {
                    step.unwrap().is_some() && step.unwrap().unwrap()@ == (ValueView::String {
                        val: path@,
                        span,
                    })
                } else {
                    step.unwrap().is_none()
                }),
            },
    {
        match failure {
            Some(reason) => Err(
                ShellError::CreateNotPossible(
                    String::from_str("failed to create directory: ").concat(reason.as_str()),
                    span,
                ),
            ),
            None => if show_created_paths {
                Ok(Some(Value::String { val: path, span }))
            } else {
                Ok(None)
            },
        }
    }
}

} // verus!
