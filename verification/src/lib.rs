//! Narya's configuration and routing core: the data model of subscriptions,
//! proxy groups and rules, the rule engine, configuration diffing, the
//! subscription parser and the sing-box configuration planner.

pub mod text;
pub mod tracker;
pub mod model;
pub mod diff;
pub mod matcher;
pub mod transformer;
pub mod node;
pub mod persistent;
pub mod yaml;
pub mod parser;
pub mod routing;
pub mod table;
pub mod editor;
pub mod conditions;
pub mod bundle;
pub mod session;
pub mod client;
pub mod kernels;
pub mod rulesets;
pub mod state;
pub mod framing;
pub mod integrity;
pub mod overview;
