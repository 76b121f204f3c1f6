//! A tag-based message multiplexer: one shared inbound entry point is split
//! into dynamically created, independently buffered per-tag lanes, and
//! replies from all lanes are funneled back onto one shared outbound stream.
//!
//! The crate verifies the multiplexer's core as a state machine over one
//! owned state: the tag-to-lane registry with its ownership handles
//! ([`SlotMap`], [`MapSlot`]), the dispatch protocol that turns first use of
//! a tag into lane creation and evicts stale bindings ([`Bus`]), the lane
//! endpoints with their closing semantics ([`LaneRx`], [`LaneTx`]), and the
//! orchestrator that collects every lane's replies into one stream
//! ([`Mux`]). Each operation's contract pins, over that state's abstract
//! model, exactly which lane a value reaches, in what order it comes out
//! again, and when a binding is created or evicted; concurrent callers
//! correspond to the order in which their operations take effect on the
//! state. Operations that would suspend (a full buffer, an empty lane)
//! return instead of blocking, handing any undelivered value back, so an
//! asynchronous layer around the crate can wait and retry without the
//! possibility of losing a message.
//!
//! The channel transports themselves are outside collaborators: the
//! [`channel`] module wraps their endpoints and takes their concurrent
//! behaviour on trust.

pub mod bus;
pub mod channel;
pub mod error;
pub mod lane;
pub mod map;
pub mod mux;

pub use bus::Bus;
pub use error::Error;
pub use lane::Lane;
pub use lane::LaneRx;
pub use lane::LaneTx;
pub use map::Key;
pub use map::MapSlot;
pub use map::SlotMap;
pub use mux::Mux;
pub use mux::MuxRx;
