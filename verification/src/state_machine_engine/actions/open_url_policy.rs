//! The host's policy for the `OpenUrl` action.
use vstd::prelude::*;

verus! {

/// The whitelist that links must match, and whether opening one needs a user
/// interaction.
#[derive(Debug, Clone, PartialEq)]
pub struct OpenUrlPolicy {
    pub whitelist: Vec<String>,
    pub require_user_interaction: bool,
}

impl Default for OpenUrlPolicy {
    /// An empty whitelist; a user interaction is required.
    fn default() -> (p: Self)
        ensures
            p.whitelist@.len() == 0,
            p.require_user_interaction,
    {
        OpenUrlPolicy { whitelist: Vec::new(), require_user_interaction: true }
    }
}

impl OpenUrlPolicy {
    /// The given whitelist and interaction requirement.
    pub fn new(whitelist: Vec<String>, require_user_interaction: bool) -> (p: Self)
        ensures
            p.whitelist == whitelist,
            p.require_user_interaction == require_user_interaction,
    {
        Self { whitelist, require_user_interaction }
    }
}

} // verus!
