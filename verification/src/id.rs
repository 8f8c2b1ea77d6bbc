//! Identities of table entries. Each is the index of its entry in the table of
//! its kind; the kinds are numbered apart from one another.

use vstd::prelude::*;

verus! {

/// The identity of a source file.
pub type FileId = usize;

/// The identity of a variable.
pub type VarId = usize;

/// The identity of a declaration.
pub type DeclId = usize;

/// The identity of a block.
pub type BlockId = usize;

/// The variable that holds the shell's own information.
pub const NU_VARIABLE_ID: usize = 0;

/// The variable that holds what is in scope.
pub const SCOPE_VARIABLE_ID: usize = 1;

/// The variable that holds a pipeline's input.
pub const IN_VARIABLE_ID: usize = 2;

/// The variable that holds the configuration.
pub const CONFIG_VARIABLE_ID: usize = 3;

/// How many variables every engine state starts with.
pub const RESERVED_VARIABLES: usize = 4;

} // verus!
