//! The languages in which the programs speak to their users.

use vstd::prelude::*;

verus! {

/// A language of the programs' messages: the command line speaks English, the window Turkish.
#[derive(Debug, Clone, Copy, PartialEq, Eq, Structural)]
pub enum Language {
    English,
    Turkish,
}

} // verus!
