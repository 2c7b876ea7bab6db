//! The core of an ARP spoofer, without any I/O: the wire codec, the ARP
//! client and the controller that sequences resolve, spoof and despoof.
//!
//! Nothing in this crate touches a socket, a clock or a signal. The link is
//! the driver's: it transmits the frames that the library hands out, delivers
//! the frames that come in or says that none came in the time given, reads
//! the clock, waits, and looks for the cancellation signal. Every decision
//! is taken here, and is verified.
//!
//! - [`addr`]: hardware and protocol addresses.
//! - [`arp`]: the ARP message, its encoding as an Ethernet frame, and the
//!   client with its timeout-bounded, predicate-filtered receive and its
//!   resolution of an address.
//! - [`iface`]: what is known of a network interface, and how one is picked.
//! - [`cli`]: the configuration of a run.
//! - [`error`]: the failures of a run.
//! - [`spoof`]: the controller, a state machine from events to actions.
//! - [`trace`]: what holds of every run of the controller.

pub mod addr;
pub mod arp;
pub mod cli;
pub mod error;
pub mod iface;
pub mod spoof;
pub mod trace;
