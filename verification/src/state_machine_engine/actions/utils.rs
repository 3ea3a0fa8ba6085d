//! Opening links on native platforms.
use vstd::prelude::*;

use crate::text::{chars_of, concat_chars, string_of};

verus! {

/// Opens links on native platforms by handing a command to the framework.
pub struct NativeOpenUrl;

/// The command that asks the framework to open `url` in `target`.
pub open spec fn open_url_command_text(url: Seq<char>, target: Seq<char>) -> Seq<char> {
    if target.len() == 0 {
        "OpenUrl: "@ + url
    } else {
        "OpenUrl: "@ + url + " | Target: "@ + target
    }
}

impl NativeOpenUrl {
    /// The framework command for opening `url` in `target`: `OpenUrl: <url>`,
    /// followed by ` | Target: <target>` when a target is given.
    pub fn open_url_command(url: &str, target: &str) -> (command: String)
        ensures
            command@ == open_url_command_text(url@, target@),
    {
        let head = concat_chars(&chars_of("OpenUrl: "), &chars_of(url));
        if target.is_empty() {
            string_of(&head)
        } else {
            let with_label = concat_chars(&head, &chars_of(" | Target: "));
            string_of(&concat_chars(&with_label, &chars_of(target)))
        }
    }
}

} // verus!
