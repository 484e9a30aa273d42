//! Records of a public account.

use vstd::prelude::*;

verus! {

/// One entry of a player's name history: the moment of the change and the
/// name taken then.
#[derive(Debug, PartialEq, Eq)]
pub struct NameChange {
    /// When the name was taken, in milliseconds of epoch time.
    pub time: u64,
    /// The name taken.
    pub name: String,
}

} // verus!
