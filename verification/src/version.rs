//! Structural version of a partially signed transaction container.

use vstd::prelude::*;

verus! {

/// Version of the container: `V0` is the layout of BIP 174, `V2` that of BIP 370.
#[derive(Copy, Clone, Ord, PartialOrd, Eq, PartialEq, Hash, Debug, Structural)]
pub enum PsbtVersion {
    /// Version defined by BIP 174.
    V0,
    /// Version defined by BIP 370.
    V2,
}

impl Default for PsbtVersion {
    fn default() -> (v: Self)
        ensures
            v == PsbtVersion::V2,
    {
        PsbtVersion::V2
    }
}

impl PsbtVersion {
    /// The number that stands for the version in the container's global map.
    pub open spec fn number(self) -> u32 {
        match self {
            PsbtVersion::V0 => 0u32,
            PsbtVersion::V2 => 2u32,
        }
    }

    /// The number that stands for the version in the container's global map.
    pub fn to_u32(self) -> (n: u32)
        ensures
            n == self.number(),
    {
        match self {
            PsbtVersion::V0 => 0,
            PsbtVersion::V2 => 2,
        }
    }

    /// The version that a number stands for; only 0 and 2 name one.
    pub fn from_u32(n: u32) -> (v: Option<PsbtVersion>)
        ensures
            v == (if n == 0 {
                Some(PsbtVersion::V0)
            } else if n == 2 {
                Some(PsbtVersion::V2)
            } else {
                None
            }),
            v matches Some(x) ==> x.number() == n,
    {
        if n == 0 {
            Some(PsbtVersion::V0)
        } else if n == 2 {
            Some(PsbtVersion::V2)
        } else {
            None
        }
    }
}

} // verus!
