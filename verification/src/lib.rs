//! Read-only Interactive Brokers Flex Web Service client core.
//!
//! The [`flex`] module holds the verified functional core: the statement-section
//! scanners, the trade selection, the Flex control-response decisions and the
//! send/poll protocol as a state machine. The [`mcp`] module decides what each
//! read-only tool answers.

pub mod flex;
pub mod mcp;
