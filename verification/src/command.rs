use vstd::prelude::*;

verus! {

/// What a helper process left behind: what it wrote, and how it ended.
#[derive(Debug)]
pub struct CommandOutput {
    pub stdout: String,
    pub stderr: String,
    pub exit_status: i32,
}

} // verus!
