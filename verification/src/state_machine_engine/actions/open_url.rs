//! How the `OpenUrl` action may open links.
use vstd::prelude::*;

verus! {

/// Whether links may be opened: never, only from a user interaction, or always.
#[derive(Debug, Clone, Copy, PartialEq, Eq, Structural)]
pub enum OpenUrlMode {
    Deny,
    Interaction,
    Allow,
}

/// The mode and the whitelist of patterns that links must match.
#[derive(Debug, Clone, PartialEq)]
pub struct OpenUrl {
    pub mode: OpenUrlMode,
    pub whitelist: Vec<String>,
}

impl Default for OpenUrl {
    /// Interaction mode with an empty whitelist.
    fn default() -> (o: Self)
        ensures
            o.mode == OpenUrlMode::Interaction,
            o.whitelist@.len() == 0,
    {
        Self { mode: OpenUrlMode::Interaction, whitelist: Vec::new() }
    }
}

impl OpenUrl {
    /// The given mode and whitelist.
    pub fn new(mode: OpenUrlMode, whitelist: Vec<String>) -> (o: Self)
        ensures
            o.mode == mode,
            o.whitelist == whitelist,
    {
        Self { mode, whitelist }
    }
}

} // verus!
