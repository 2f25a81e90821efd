//! The live log stream of the API server and the rules around it.
//!
//! [`layer`] turns traced events and spans into lines, [`stream`] retains the most
//! recent ones and broadcasts each to live subscribers, and [`logs`] serves them to a
//! viewer. [`allocation_type`] tells addresses that DHCP manages from those that an
//! operator assigns.

pub mod address_selection_strategy;
pub mod allocation_type;
pub mod channel;
pub mod clock;
pub mod fields;
pub mod layer;
pub mod line;
pub mod logs;
pub mod stream;
pub mod text;
