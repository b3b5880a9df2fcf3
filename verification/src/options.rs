//! The options of the `new` command.

use vstd::prelude::*;

verus! {

/// A path, held as `std` has it.
#[verifier::external_type_specification]
#[verifier::external_body]
pub struct ExPathBuf(std::path::PathBuf);

/// When to color the output.
#[derive(Clone, Copy, Debug, PartialEq, Eq, Structural)]
pub enum ColorChoice {
    Auto,
    Always,
    Never,
}

/// The options of `cargo compete new`.
#[derive(Debug)]
pub struct OptCompeteNew {
    /// Retrieve system test cases
    pub full: bool,
    /// Open URLs and files
    pub open: bool,
    /// Retrieve only the problems
    pub problems: Option<Vec<String>>,
    /// Path to `compete.toml`
    pub config: Option<std::path::PathBuf>,
    /// Coloring
    pub color: ColorChoice,
    /// Contest ID. Required for some platforms
    pub contest: Option<String>,
}

impl ColorChoice {
    /// The name of the choice on the command line.
    pub open spec fn spec_name(self) -> Seq<char> {
        match self {
            ColorChoice::Auto => "auto"@,
            ColorChoice::Always => "always"@,
            ColorChoice::Never => "never"@,
        }
    }

    /// The name of the choice on the command line, in kebab case.
    pub fn name(self) -> (r: &'static str)
        ensures
            r@ == self.spec_name(),
    {
        match self {
            ColorChoice::Auto => "auto",
            ColorChoice::Always => "always",
            ColorChoice::Never => "never",
        }
    }
}

} // verus!
