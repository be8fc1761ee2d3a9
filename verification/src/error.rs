//! What goes wrong.

use vstd::prelude::*;

verus! {

/// An error, by the part of jrs that raises it, with its message.
#[derive(Debug, PartialEq, Eq)]
pub enum JrsError {
    /// The manifest is wrong.
    Manifest(String),
    /// A tool is missing or does not do.
    Toolchain(String),
    /// A tool that builds fails.
    Build(String),
    /// What was asked for makes no sense.
    Usage(String),
    /// A dependency cannot be worked out.
    Resolve(String),
}

/// What an error says.
pub enum Fault {
    Manifest(Seq<char>),
    Toolchain(Seq<char>),
    Build(Seq<char>),
    Usage(Seq<char>),
    Resolve(Seq<char>),
}

impl DeepView for JrsError {
    type V = Fault;

    open spec fn deep_view(&self) -> Fault {
        match self {
            JrsError::Manifest(m) => Fault::Manifest(m@),
            JrsError::Toolchain(m) => Fault::Toolchain(m@),
            JrsError::Build(m) => Fault::Build(m@),
            JrsError::Usage(m) => Fault::Usage(m@),
            JrsError::Resolve(m) => Fault::Resolve(m@),
        }
    }
}

impl Fault {
    pub open spec fn text(self) -> Seq<char> {
        match self {
            Fault::Manifest(m) => m,
            Fault::Toolchain(m) => m,
            Fault::Build(m) => m,
            Fault::Usage(m) => m,
            Fault::Resolve(m) => m,
        }
    }
}

impl JrsError {
    /// The status the program exits with.
    pub fn exit_code(&self) -> (r: i32)
        ensures
            r == (if self.deep_view() is Manifest {
                2i32
            } else {
                1i32
            }),
    {
        match self {
            JrsError::Manifest(_) => 2,
            _ => 1,
        }
    }

    /// The message.
    pub fn to_text(&self) -> (r: String)
        ensures
            r@ == self.deep_view().text(),
    {
        match self {
            JrsError::Manifest(m) => m.clone(),
            JrsError::Toolchain(m) => m.clone(),
            JrsError::Build(m) => m.clone(),
            JrsError::Usage(m) => m.clone(),
            JrsError::Resolve(m) => m.clone(),
        }
    }
}

} // verus!
