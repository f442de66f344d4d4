//! Compiler toolchains, identified by their names.

use vstd::prelude::*;
use vstd::string::StringExecFns;
use crate::text::{is_blank, str_is_blank};

verus! {

/// A named compiler installation: a release channel, a dated nightly or a
/// local build.
#[derive(Debug, Eq, Hash)]
pub struct Toolchain {
    pub name: String,
}

/// A text that names no toolchain.
#[derive(Debug, PartialEq, Eq, Clone, Copy, Structural)]
pub enum ToolchainParseError {
    /// The text is empty or holds white space only.
    EmptyName,
}

impl View for Toolchain {
    type V = Seq<char>;

    open spec fn view(&self) -> Seq<char> {
        self.name@
    }
}

impl DeepView for Toolchain {
    type V = Seq<char>;

    open spec fn deep_view(&self) -> Seq<char> {
        self.name@
    }
}

impl PartialEq for Toolchain {
    fn eq(&self, other: &Toolchain) -> (same: bool) {
        self.name == other.name
    }
}

impl vstd::std_specs::cmp::PartialEqSpecImpl for Toolchain {
    open spec fn obeys_eq_spec() -> bool {
        true
    }

    open spec fn eq_spec(&self, other: &Toolchain) -> bool {
        self.name@ == other.name@
    }
}

impl Clone for Toolchain {
    fn clone(&self) -> (copy: Toolchain)
        ensures
            copy@ == self@,
    {
        Toolchain { name: self.name.clone() }
    }
}

impl Toolchain {
    /// The toolchain that a text names. Every text names one, except the
    /// empty text and texts of white space.
    pub fn from_str(input: &str) -> (parsed: Result<Toolchain, ToolchainParseError>)
        ensures
            parsed is Err <==> is_blank(input@),
            parsed is Ok ==> parsed->Ok_0@ == input@,
    {
        if str_is_blank(input) {
            Err(ToolchainParseError::EmptyName)
        } else {
            Ok(Toolchain { name: String::from_str(input) })
        }
    }

    /// The toolchain that experiments compare with: the stable release.
    pub fn main() -> (tc: Toolchain)
        ensures
            tc@ == "stable"@,
    {
        Toolchain { name: String::from_str("stable") }
    }

    /// The toolchain that experiments try by default: the beta release.
    pub fn test() -> (tc: Toolchain)
        ensures
            tc@ == "beta"@,
    {
        Toolchain { name: String::from_str("beta") }
    }

    /// The name of the toolchain.
    pub fn to_string(&self) -> (s: String)
        ensures
            s@ == self@,
    {
        self.name.clone()
    }
}

} // verus!
