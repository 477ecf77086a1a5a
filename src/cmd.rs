use vstd::prelude::*;

verus! {

/// The command line: the path to open.
pub struct Args {
    pub path: Vec<u8>,
}

} // verus!
