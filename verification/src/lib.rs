//! ufw-style firewall rules for macOS `pf`: the rule model, its text forms,
//! the rule store and the decisions of the command-line front end.

pub mod anchor;
pub mod cli;
pub mod error;
pub mod net;
pub mod rule;
pub mod store;
pub mod text;

pub use error::Error;
pub use error::Result;
pub use rule::Action;
pub use rule::PortSpec;
pub use rule::Proto;
pub use rule::Rule;
pub use rule::Target;
pub use store::Store;
pub use anchor::ANCHOR;
pub use anchor::RULES_PATH;
