//! String descriptor language IDs.

use vstd::prelude::*;

verus! {

pub const ENGLISH_US: u16 = 0x0409;

} // verus!
