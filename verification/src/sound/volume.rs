//! The volume of a sound.

use vstd::prelude::*;

verus! {

/// A volume, in percent
#[derive(Debug, Clone, Copy, PartialEq, Eq, Hash, Default)]
pub struct Volume {
    pub percent: u16,
}

} // verus!
