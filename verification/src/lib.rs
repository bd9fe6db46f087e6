//! A sans-io time synchronization client and server core.
//!
//! The library estimates the offset between the local clock and a remote
//! peer's clock from a handful of timestamped round trips, following the
//! averaging approach of Simpson's stream-based time synchronization
//! technique, with a corrected delta calculation. It assumes round trips are
//! symmetric: any difference between the forward and the return leg induces
//! an error equal to that difference.
//!
//! The caller brings the transport, the storage, and the sleeping primitive
//! by implementing the [`Timesimp`] trait; the library turns round trips
//! into offsets.

pub mod delta;
pub mod messages;
pub mod settings;
pub mod stats;
pub mod sync;
pub mod time;

pub use delta::Delta;
pub use messages::ParseError;
pub use messages::Request;
pub use messages::Response;
pub use settings::Settings;
pub use sync::Timesimp;
pub use time::SignedDuration;
pub use time::Timestamp;
