//! The kinds of host whose conventions the library knows.

use vstd::prelude::*;

verus! {

/// The kind of operating system: it decides where providers keep their
/// models and how the system's reports on itself are laid out.
#[derive(Clone, Copy, Debug, PartialEq, Eq)]
pub enum Platform {
    Windows,
    MacOs,
    Linux,
}

} // verus!
