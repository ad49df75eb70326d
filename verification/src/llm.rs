use vstd::prelude::*;

use crate::ipc::SHUTDOWN_PROMPT;
use crate::scripting::same_text;

verus! {

/// A stand-in for the language model that always answers with a preset
/// script.
pub struct MockLlmClient {
    pub preset_response: String,
}

impl MockLlmClient {
    /// The reply to any prompt: the preset script.
    pub fn scripted_reply(&self, prompt: &str) -> (reply: String)
        ensures
            reply@ == self.preset_response@,
    {
        self.preset_response.clone()
    }
}

/// Whether a prompt received by the daemon asks it to shut down.
pub fn is_shutdown_request(prompt: &str) -> (b: bool)
    ensures
        b == (prompt@ == SHUTDOWN_PROMPT@),
{
    let owned = prompt.to_owned();
    same_text(&owned, SHUTDOWN_PROMPT)
}

} // verus!
