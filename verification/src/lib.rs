//! Discovery of network printers on an IPv4 subnet.
//!
//! The crate holds the decisions of a scan: which addresses of a network are
//! hosts, which probe comes next for a host, what a response says about the
//! device behind it, how many hosts may be under examination at once, and how
//! the findings are ordered. Connecting, sending and waiting are left to the
//! caller, who hands back what came over the wire.

pub mod text;
pub mod probe;
pub mod snmp;
pub mod orchestrator;
pub mod scheduler;
pub mod network;
pub mod report;
pub mod scan;
