use vstd::prelude::*;

verus! {

/// One seat at the table: a name and the tokens in front of it.
/// A stake of zero marks a player who is out; the record stays.
#[derive(Debug, PartialEq, Eq)]
pub struct Player {
    pub name: String,
    pub stake: usize,
}

} // verus!
