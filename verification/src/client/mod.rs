//! What the application sees of the node: its configuration and the
//! messages it receives.

pub mod builder;
pub mod messages;
pub mod dialog;
