use vstd::prelude::*;

use crate::read_layered::ReadLayered;
use crate::write_layered::WriteLayered;

verus! {

/// Both status-aware capabilities on one bidirectional stream: a type
/// that can read and write with status over a single transport.
pub trait HalfDuplexLayered: ReadLayered + WriteLayered {

}

impl<T: ReadLayered + WriteLayered> HalfDuplexLayered for T {

}

} // verus!
