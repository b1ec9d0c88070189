//! The arguments that follow a command's name, read one after another.
use vstd::prelude::*;
use crate::number::parse_i64;
use crate::text::{copy_strings, new_string, parses_as_i64, push_str, signed_value, views};

verus! {

/// Why an argument could not be read.
#[derive(Debug)]
pub enum ArgsError {
    OutOfBounds,
    Parse,
    /// The argument of this name is missing.
    Custom(String),
}

impl ArgsError {
    /// The message that describes the error.
    pub fn message(&self) -> (r: String)
        ensures
            r@ == match self {
                ArgsError::OutOfBounds => "Argument out of bounds"@,
                ArgsError::Parse => "Unable to parse argument"@,
                ArgsError::Custom(name) => "Argument '"@ + name@ + " not found"@,
            },
    {
        match self {
            ArgsError::OutOfBounds => new_string("Argument out of bounds"),
            ArgsError::Parse => new_string("Unable to parse argument"),
            ArgsError::Custom(name) => {
                let mut s = new_string("Argument '");
                push_str(&mut s, name.as_str());
                push_str(&mut s, " not found");
                s
            },
        }
    }
}

/// A kind of value that an argument can be read as.
pub trait ArgValue: Sized {
    /// Whether the text reads as a value of this kind.
    spec fn reads(text: Seq<char>) -> bool;

    /// Whether `value` is what the text reads as.
    spec fn read_as(text: Seq<char>, value: Self) -> bool;

    fn parse_arg(text: &str) -> (r: Option<Self>)
        ensures
            r is Some <==> Self::reads(text@),
            r matches Some(v) ==> Self::read_as(text@, v),
    ;
}

impl ArgValue for String {
    /// Any text reads as a string.
    open spec fn reads(text: Seq<char>) -> bool {
        true
    }

    open spec fn read_as(text: Seq<char>, value: String) -> bool {
        value@ == text
    }

    fn parse_arg(text: &str) -> (r: Option<String>) {
        Some(new_string(text))
    }
}

impl ArgValue for i64 {
    open spec fn reads(text: Seq<char>) -> bool {
        parses_as_i64(text)
    }

    open spec fn read_as(text: Seq<char>, value: i64) -> bool {
        value == signed_value(text)
    }

    fn parse_arg(text: &str) -> (r: Option<i64>) {
        parse_i64(text)
    }
}

/// The arguments of one command call and how many of them were read. A
/// copy is made with `duplicate`.
pub struct Args {
    args: Vec<String>,
    i: usize,
}

impl Args {
    /// The cursor never passes the end of the arguments.
    #[verifier::type_invariant]
    closed spec fn cursor_in_bounds(&self) -> bool {
        self.i <= self.args@.len()
    }

    /// The arguments, in order.
    pub closed spec fn items(&self) -> Seq<Seq<char>> {
        views(self.args@)
    }

    /// How many arguments were read.
    pub closed spec fn position(&self) -> nat {
        self.i as nat
    }

    pub fn new(args: Vec<String>) -> (r: Args)
        ensures
            r.items() == views(args@),
            r.position() == 0,
            r.position() <= r.items().len(),
    {
        Args { args, i: 0 }
    }

    /// A copy of these arguments, at the same position.
    pub fn duplicate(&self) -> (r: Args)
        ensures
            r.items() == self.items(),
            r.position() == self.position(),
            r.position() <= r.items().len(),
    {
        proof {
            use_type_invariant(self);
        }
        Args { args: copy_strings(&self.args), i: self.i }
    }

    pub fn len(&self) -> (r: usize)
        ensures
            r == self.items().len(),
            self.position() <= self.items().len(),
    {
        proof {
            use_type_invariant(self);
        }
        self.args.len()
    }

    pub fn is_empty(&self) -> (r: bool)
        ensures
            r == (self.items().len() == 0),
            self.position() <= self.items().len(),
    {
        proof {
            use_type_invariant(self);
        }
        self.args.len() == 0
    }

    /// Reads the next argument as a `T`. A missing argument gives
    /// `Custom(name)`, one that does not read as a `T` gives `Parse`; only a
    /// successful read moves on to the following argument, and the cursor
    /// never passes the end of the arguments.
    pub fn arg<T: ArgValue>(&mut self, name: &str) -> (r: Result<T, ArgsError>)
        ensures
            old(self).position() <= old(self).items().len(),
            final(self).position() <= final(self).items().len(),
            final(self).items() == old(self).items(),
            old(self).position() >= old(self).items().len() ==> (r matches Err(
                ArgsError::Custom(n),
            ) && n@ == name@),
            old(self).position() < old(self).items().len() && !T::reads(
                old(self).items()[old(self).position() as int],
            ) ==> r matches Err(ArgsError::Parse),
            old(self).position() < old(self).items().len() && T::reads(
                old(self).items()[old(self).position() as int],
            ) ==> (r matches Ok(v) && T::read_as(old(self).items()[old(self).position() as int], v)),
            final(self).position() == old(self).position() + (if r is Ok {
                1nat
            } else {
                0nat
            }),
    {
        proof {
            use_type_invariant(&*self);
        }
        if self.i >= self.args.len() {
            return Err(ArgsError::Custom(new_string(name)));
        }
        let value = T::parse_arg(self.args[self.i].as_str());
        match value {
            Some(v) => {
                self.i = self.i + 1;
                Ok(v)
            },
            None => Err(ArgsError::Parse),
        }
    }
}

} // verus!
