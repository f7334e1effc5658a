//! State kept between runs.

use vstd::prelude::*;
use crate::tracker::BypassRules;

verus! {

/// The subscription, active node and bypass lists saved between runs.
#[derive(Debug, Clone)]
pub struct PersistentState {
    pub subscription_url: String,
    pub active_node: Option<String>,
    pub bypass_rules: BypassRules,
}

impl PersistentState {
    /// The built-in subscription, no active node and empty bypass lists.
    pub fn default() -> (s: PersistentState)
        ensures
            s.subscription_url@ == "https://jsjc.cfd/api/v1/client/subscribe?token=a6db043ed2bd5771205036c514290aa0"@,
            s.active_node is None,
            s.bypass_rules.whitelist@.len() == 0,
            s.bypass_rules.blacklist@.len() == 0,
    {
        PersistentState {
            subscription_url: String::from_str(
                "https://jsjc.cfd/api/v1/client/subscribe?token=a6db043ed2bd5771205036c514290aa0",
            ),
            active_node: None,
            bypass_rules: BypassRules { whitelist: Vec::new(), blacklist: Vec::new() },
        }
    }
}

} // verus!
