//! Rules of the dependency-tree scanner: how a dependency is shown, how
//! deep the scan goes and which imports a binary names.
pub mod binary;
pub mod colors;
pub mod dep_tree;
pub mod pe_walk;
pub mod search;
pub mod text;
pub mod win;

use vstd::prelude::*;

verus! {

/// The system whose binaries are scanned: ELF libraries on Linux, PE DLLs
/// on Windows.
#[derive(Debug, Clone, Copy, PartialEq, Eq, Structural)]
pub enum Platform {
    Linux,
    Windows,
}

/// Which dependencies the scanner shows.
#[derive(Debug, Clone, Copy, PartialEq, Eq, Structural)]
pub enum ShowOption {
    /// Every dependency.
    All,
    /// Only dependencies that are missing, or that miss dependencies.
    Missing,
}

impl ShowOption {
    /// The option shown when none is chosen.
    pub fn default_option() -> (r: Self)
        ensures
            r == ShowOption::All,
    {
        ShowOption::All
    }

    /// The name the option has on the command line.
    pub fn as_name(&self) -> (r: &'static str)
        ensures
            r@ == (match self {
                ShowOption::All => seq!['a', 'l', 'l'],
                ShowOption::Missing => seq!['m', 'i', 's', 's', 'i', 'n', 'g'],
            }),
    {
        match self {
            ShowOption::All => {
                proof {
                    reveal_strlit("all");
                }
                "all"
            },
            ShowOption::Missing => {
                proof {
                    reveal_strlit("missing");
                }
                "missing"
            },
        }
    }
}

} // verus!
