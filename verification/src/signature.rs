//! What a command expects of a call: its positional parameters, its flags and
//! its help texts.

use vstd::prelude::*;
use crate::ty::SyntaxShape;
use crate::value::Value;
use crate::value::ValueView;

verus! {

/// A parameter that is given by its position.
#[derive(Debug, PartialEq)]
pub struct PositionalArg {
    pub name: String,
    pub desc: String,
    pub shape: SyntaxShape,
}

/// A parameter that is given by its name.
#[derive(Debug, PartialEq)]
pub struct Flag {
    pub long: String,
    pub short: Option<char>,
    pub arg: Option<SyntaxShape>,
    pub required: bool,
    pub desc: String,
}

/// The parameters and help texts of a command.
#[derive(Debug, PartialEq)]
pub struct Signature {
    pub name: String,
    pub usage: String,
    pub extra_usage: String,
    pub required_positional: Vec<PositionalArg>,
    pub optional_positional: Vec<PositionalArg>,
    pub rest_positional: Option<PositionalArg>,
    pub named: Vec<Flag>,
}

/// A sample call of a command, with what it gives.
#[derive(Debug, PartialEq)]
pub struct Example {
    pub example: String,
    pub description: String,
    pub result: Option<Value>,
}

/// A positional parameter as a mathematical value.
pub struct PositionalArgView {
    pub name: Seq<char>,
    pub desc: Seq<char>,
    pub shape: SyntaxShape,
}

/// A flag as a mathematical value.
pub struct FlagView {
    pub long: Seq<char>,
    pub short: Option<char>,
    pub arg: Option<SyntaxShape>,
    pub required: bool,
    pub desc: Seq<char>,
}

/// A signature as a mathematical value.
pub struct SignatureView {
    pub name: Seq<char>,
    pub usage: Seq<char>,
    pub extra_usage: Seq<char>,
    pub required_positional: Seq<PositionalArgView>,
    pub optional_positional: Seq<PositionalArgView>,
    pub rest_positional: Option<PositionalArgView>,
    pub named: Seq<FlagView>,
}

/// An example as a mathematical value.
pub struct ExampleView {
    pub example: Seq<char>,
    pub description: Seq<char>,
    pub result: Option<ValueView>,
}

impl View for PositionalArg {
    type V = PositionalArgView;

    open spec fn view(&self) -> PositionalArgView {
        PositionalArgView { name: self.name@, desc: self.desc@, shape: self.shape }
    }
}

impl View for Flag {
    type V = FlagView;

    open spec fn view(&self) -> FlagView {
        FlagView {
            long: self.long@,
            short: self.short,
            arg: self.arg,
            required: self.required,
            desc: self.desc@,
        }
    }
}

/// The views of a list of positional parameters, element by element.
pub open spec fn args_view(args: Seq<PositionalArg>) -> Seq<PositionalArgView> {
    Seq::new(args.len(), |i: int| args[i]@)
}

/// The views of a list of flags, element by element.
pub open spec fn flags_view(flags: Seq<Flag>) -> Seq<FlagView> {
    Seq::new(flags.len(), |i: int| flags[i]@)
}

/// The views of a list of examples, element by element.
pub open spec fn examples_view(examples: Seq<Example>) -> Seq<ExampleView> {
    Seq::new(examples.len(), |i: int| examples[i]@)
}

impl View for Signature {
    type V = SignatureView;

    open spec fn view(&self) -> SignatureView {
        SignatureView {
            name: self.name@,
            usage: self.usage@,
            extra_usage: self.extra_usage@,
            required_positional: args_view(self.required_positional@),
            optional_positional: args_view(self.optional_positional@),
            rest_positional: match self.rest_positional {
                Some(arg) => Some(arg@),
                None => None,
            },
            named: flags_view(self.named@),
        }
    }
}

impl View for Example {
    type V = ExampleView;

    open spec fn view(&self) -> ExampleView {
        ExampleView {
            example: self.example@,
            description: self.description@,
            result: match self.result {
                Some(value) => Some(value@),
                None => None,
            },
        }
    }
}

impl Clone for PositionalArg {
    fn clone(&self) -> (copy: Self)
        ensures
            copy@ == self@,
    {
        PositionalArg { name: self.name.clone(), desc: self.desc.clone(), shape: self.shape }
    }
}

impl Clone for Flag {
    fn clone(&self) -> (copy: Self)
        ensures
            copy@ == self@,
    {
        Flag {
            long: self.long.clone(),
            short: self.short,
            arg: self.arg,
            required: self.required,
            desc: self.desc.clone(),
        }
    }
}

/// A copy of a list of positional parameters.
pub fn clone_args(args: &Vec<PositionalArg>) -> (copy: Vec<PositionalArg>)
    ensures
        args_view(copy@) == args_view(args@),
{
    let mut copy: Vec<PositionalArg> = Vec::new();
    let mut i: usize = 0;
    while i < args.len()
        invariant
            i <= args@.len(),
            copy@.len() == i,
            forall|k: int| 0 <= k < i ==> copy@[k]@ == args@[k]@,
        decreases args@.len() - i,
    {
        copy.push(args[i].clone());
        i += 1;
    }
    assert(args_view(copy@) =~= args_view(args@));
    copy
}

/// A copy of a list of flags.
pub fn clone_flags(flags: &Vec<Flag>) -> (copy: Vec<Flag>)
    ensures
        flags_view(copy@) == flags_view(flags@),
{
    let mut copy: Vec<Flag> = Vec::new();
    let mut i: usize = 0;
    while i < flags.len()
        invariant
            i <= flags@.len(),
            copy@.len() == i,
            forall|k: int| 0 <= k < i ==> copy@[k]@ == flags@[k]@,
        decreases flags@.len() - i,
    {
        copy.push(flags[i].clone());
        i += 1;
    }
    assert(flags_view(copy@) =~= flags_view(flags@));
    copy
}

/// A copy of a list of examples.
pub fn clone_examples(examples: &Vec<Example>) -> (copy: Vec<Example>)
    ensures
        examples_view(copy@) == examples_view(examples@),
{
    let mut copy: Vec<Example> = Vec::new();
    let mut i: usize = 0;
    while i < examples.len()
        invariant
            i <= examples@.len(),
            copy@.len() == i,
            forall|k: int| 0 <= k < i ==> copy@[k]@ == examples@[k]@,
        decreases examples@.len() - i,
    {
        copy.push(examples[i].clone());
        i += 1;
    }
    assert(examples_view(copy@) =~= examples_view(examples@));
    copy
}

impl Clone for Signature {
    fn clone(&self) -> (copy: Self)
        ensures
            copy@ == self@,
    {
        Signature {
            name: self.name.clone(),
            usage: self.usage.clone(),
            extra_usage: self.extra_usage.clone(),
            required_positional: clone_args(&self.required_positional),
            optional_positional: clone_args(&self.optional_positional),
            rest_positional: match &self.rest_positional {
                Some(arg) => Some(arg.clone()),
                None => None,
            },
            named: clone_flags(&self.named),
        }
    }
}

impl Clone for Example {
    fn clone(&self) -> (copy: Self)
        ensures
            copy@ == self@,
    {
        Example {
            example: self.example.clone(),
            description: self.description.clone(),
            result: match &self.result {
                Some(value) => Some(value.clone()),
                None => None,
            },
        }
    }
}

impl Signature {
    /// The signature of a command called `name` that takes no parameters.
    pub fn new(name: &str) -> (sig: Signature)
        ensures
            sig@ == Self::spec_new(name@),
    {
        let sig = Signature {
            name: name.to_owned(),
            usage: String::new(),
            extra_usage: String::new(),
            required_positional: Vec::new(),
            optional_positional: Vec::new(),
            rest_positional: None,
            named: Vec::new(),
        };
        assert(args_view(sig.required_positional@) =~= Seq::empty());
        assert(args_view(sig.optional_positional@) =~= Seq::empty());
        assert(flags_view(sig.named@) =~= Seq::empty());
        sig
    }

    /// Starts the signature of a command called `name`.
    pub fn build(name: &str) -> (sig: Signature)
        ensures
            sig@ == Self::spec_new(name@),
    {
        Signature::new(name)
    }

    /// Sets the text that says what the command does.
    pub fn desc(self, usage: &str) -> (sig: Signature)
        ensures
            sig@ == (SignatureView { usage: usage@, ..self@ }),
    {
        let mut sig = self;
        sig.usage = usage.to_owned();
        sig
    }

    /// Adds a positional parameter that every call has to give.
    pub fn required(self, name: &str, shape: SyntaxShape, desc: &str) -> (sig: Signature)
        ensures
            sig@ == (SignatureView {
                required_positional: self@.required_positional.push(
                    PositionalArgView { name: name@, desc: desc@, shape },
                ),
                ..self@
            }),
    {
        let mut sig = self;
        sig.required_positional.push(
            PositionalArg { name: name.to_owned(), desc: desc.to_owned(), shape },
        );
        assert(args_view(sig.required_positional@) =~= self@.required_positional.push(
            PositionalArgView { name: name@, desc: desc@, shape },
        ));
        sig
    }

    /// Adds a positional parameter that a call may leave out.
    pub fn optional(self, name: &str, shape: SyntaxShape, desc: &str) -> (sig: Signature)
        ensures
            sig@ == (SignatureView {
                optional_positional: self@.optional_positional.push(
                    PositionalArgView { name: name@, desc: desc@, shape },
                ),
                ..self@
            }),
    {
        let mut sig = self;
        sig.optional_positional.push(
            PositionalArg { name: name.to_owned(), desc: desc.to_owned(), shape },
        );
        assert(args_view(sig.optional_positional@) =~= self@.optional_positional.push(
            PositionalArgView { name: name@, desc: desc@, shape },
        ));
        sig
    }

    /// Sets the parameter that takes all further positional arguments.
    pub fn rest(self, name: &str, shape: SyntaxShape, desc: &str) -> (sig: Signature)
        ensures
            sig@ == (SignatureView {
                rest_positional: Some(PositionalArgView { name: name@, desc: desc@, shape }),
                ..self@
            }),
    {
        let mut sig = self;
        sig.rest_positional = Some(
            PositionalArg { name: name.to_owned(), desc: desc.to_owned(), shape },
        );
        sig
    }

    /// Adds a flag that takes a value of the given shape and may be left out.
    pub fn named(self, name: &str, shape: SyntaxShape, desc: &str, short: Option<char>) -> (sig:
        Signature)
        ensures
            sig@ == (SignatureView {
                named: self@.named.push(
                    FlagView { long: name@, short, arg: Some(shape), required: false, desc: desc@ },
                ),
                ..self@
            }),
    {
        let mut sig = self;
        sig.named.push(
            Flag {
                long: name.to_owned(),
                short,
                arg: Some(shape),
                required: false,
                desc: desc.to_owned(),
            },
        );
        assert(flags_view(sig.named@) =~= self@.named.push(
            FlagView { long: name@, short, arg: Some(shape), required: false, desc: desc@ },
        ));
        sig
    }

    /// Adds a flag that takes no value.
    pub fn switch(self, name: &str, desc: &str, short: Option<char>) -> (sig: Signature)
        ensures
            sig@ == (SignatureView {
                named: self@.named.push(
                    FlagView { long: name@, short, arg: None, required: false, desc: desc@ },
                ),
                ..self@
            }),
    {
        let mut sig = self;
        sig.named.push(
            Flag { long: name.to_owned(), short, arg: None, required: false, desc: desc.to_owned() },
        );
        assert(flags_view(sig.named@) =~= self@.named.push(
            FlagView { long: name@, short, arg: None, required: false, desc: desc@ },
        ));
        sig
    }

    /// The signature of a command called `name` that takes no parameters.
    pub open spec fn spec_new(name: Seq<char>) -> SignatureView {
        SignatureView {
            name,
            usage: Seq::empty(),
            extra_usage: Seq::empty(),
            required_positional: Seq::empty(),
            optional_positional: Seq::empty(),
            rest_positional: None,
            named: Seq::empty(),
        }
    }
}

} // verus!
