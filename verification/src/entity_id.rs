//! Entity identifiers.

use crate::text::{dec_digits, u64_to_dec};
use vstd::prelude::*;
use vstd::string::StringExecFns;

verus! {

/// An opaque entity identifier: an index (position in the registry) and a
/// generation (incremented each time the index is recycled).
///
/// Two identifiers with the same index but different generations never both
/// report alive.
#[derive(Clone, Copy, PartialEq, Eq, Structural, Debug, Hash)]
pub struct EntityId {
    /// Position in the entity registry.
    pub index: usize,
    /// How many times the index was recycled when this identifier was made.
    pub generation: u64,
}

impl EntityId {
    /// Builds the identifier with the given index and generation.
    pub fn new(index: usize, generation: u64) -> (r: EntityId)
        ensures
            r == (EntityId { index, generation }),
    {
        EntityId { index, generation }
    }

    /// The diagnostic label of this identifier, `EId(index.generation)`.
    pub open spec fn label_spec(self) -> Seq<char> {
        "EId("@ + dec_digits(self.index as nat) + "."@ + dec_digits(self.generation as nat) + ")"@
    }

    /// Renders the identifier for diagnostics.
    pub fn label(&self) -> (r: String)
        ensures
            r@ == self.label_spec(),
    {
        let mut r = "EId(".to_owned();
        r.append(u64_to_dec(self.index as u64).as_str());
        r.append(".");
        r.append(u64_to_dec(self.generation).as_str());
        r.append(")");
        proof {
            assert(r@ =~= self.label_spec());
        }
        r
    }
}

} // verus!
