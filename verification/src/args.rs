use vstd::prelude::*;

verus! {

/// Command-line arguments: the workspace directory to open, if any.
#[derive(Debug)]
pub struct Args {
    pub workspace: Option<String>,
}

} // verus!
