//! The indexer service's own configuration cell; its message stores live in
//! the consumer component.

use vstd::prelude::*;
use crate::principal::PrincipalId;

verus! {

/// The indexer's configuration cell.
#[derive(Debug)]
pub struct Indexer {
    pub name: String,
    pub owner: PrincipalId,
    pub user_count: u32,
}

impl Default for Indexer {
    /// A fresh indexer: anonymous, unnamed beyond the default, empty.
    fn default() -> (r: Indexer)
        ensures
            r.name@ == "default_indexer"@,
            r.owner.raw == 0,
            r.user_count == 0,
    {
        Indexer {
            name: "default_indexer".to_owned(),
            owner: PrincipalId { raw: 0 },
            user_count: 0,
        }
    }
}

} // verus!
