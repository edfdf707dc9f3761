//! The machine for lookups that fixed columns alone answer.

use crate::commit_evaluator::{FixedData, Identity};
use vstd::prelude::*;

verus! {

/// The machine that stands for the fixed columns. It owns no identity and no witness
/// column, and so has no state; this library only decides when it can be made.
#[derive(Debug, PartialEq, Eq)]
pub struct FixedLookup {}

impl FixedLookup {
    /// The machine, if no identity and no witness column is left for it to own: it
    /// answers lookups from the fixed data alone.
    pub fn try_new(
        _fixed_data: &FixedData,
        identities: &Vec<Identity>,
        witness_names: &Vec<String>,
    ) -> (r: Option<Box<FixedLookup>>)
        ensures
            r is Some <==> identities.len() == 0 && witness_names.len() == 0,
    {
        if identities.len() == 0 && witness_names.len() == 0 {
            Some(Box::new(FixedLookup {  }))
        } else {
            None
        }
    }
}

} // verus!
