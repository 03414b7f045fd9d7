//! The HTTP helper the pipeline's tasks fetch image bytes through. The
//! transport itself is a collaborator of the binary around the library; any
//! failure of a fetch degrades the affected article to "no image" (see the
//! item processor) and nothing else.

use vstd::prelude::*;

verus! {

/// The reqwest-backed HTTP helper, stateless; the binary wires its `get`
/// calls to it.
pub struct ReqwestTool {}

impl ReqwestTool {
    pub fn new() -> ReqwestTool {
        ReqwestTool {}
    }
}

} // verus!
