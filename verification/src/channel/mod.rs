//! Channel building blocks: multi-producer multi-consumer endpoints over an
//! outside channel primitive, and a duplex pairing of them.
//!
//! These are the transport collaborators the mux core is built beside; the
//! channels themselves are concurrent primitives whose behaviour this crate
//! takes on trust from their own crate, so the contracts here are thin.

pub mod duplix;
pub mod error;
pub mod multi;

pub use error::ConsumeError;
pub use error::ProduceError;
pub use multi::bounded;
pub use multi::maybe_bounded;
pub use multi::unbounded;
pub use multi::MultiConsumer;
pub use multi::MultiProducer;
