//! Conversation data shared by the UI: message roles and token usage.
use vstd::prelude::*;

verus! {

/// Role of a message in the conversation.
#[derive(PartialEq, Eq, Structural, Clone, Copy, Debug)]
pub enum Role {
    User,
    Assistant,
    ToolResult,
}

/// Token usage of an assistant response.
#[derive(PartialEq, Eq, Structural, Clone, Copy, Debug)]
pub struct Usage {
    pub input_tokens: Option<i32>,
    pub output_tokens: Option<i32>,
    pub cache_tokens: Option<i32>,
}

impl Default for Usage {
    fn default() -> (u: Self)
        ensures
            u == (Usage { input_tokens: None, output_tokens: None, cache_tokens: None }),
    {
        Usage { input_tokens: None, output_tokens: None, cache_tokens: None }
    }
}

} // verus!
