//! The persisted user configuration.

use vstd::prelude::*;

verus! {

/// The user's settings.
#[derive(Clone, Copy, Debug, PartialEq, Eq, Structural)]
pub struct Config {
    /// Always ask for permission to modify files.
    pub always_ask_permission: bool,
}

impl Default for Config {
    /// Not asking is the default.
    fn default() -> (r: Config)
        ensures
            !r.always_ask_permission,
    {
        Config { always_ask_permission: false }
    }
}

impl Config {
    /// The setting as the answer the prompt offers: `yes` or `no`.
    pub fn current_answer(&self) -> (r: &'static str)
        ensures
            r@ == (if self.always_ask_permission { "yes"@ } else { "no"@ }),
    {
        if self.always_ask_permission {
            "yes"
        } else {
            "no"
        }
    }

    /// The setting that an answer to the prompt gives: only exactly `yes`
    /// turns it on.
    pub fn from_answer(answer: &str) -> (r: Config)
        ensures
            r.always_ask_permission == (answer@ == "yes"@),
    {
        let a = answer.to_owned();
        let yes = "yes".to_owned();
        Config { always_ask_permission: a == yes }
    }
}

} // verus!
