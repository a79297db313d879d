//! Altitude resolution for geographic coordinates.
//!
//! Coordinates are held in fixed point: latitude and longitude in
//! nano-degrees, altitude in millimetres above sea level. The resolver
//! partitions a requested batch into cache hits and misses, selects a
//! transport encoding for the misses by payload size, and merges fetched
//! records back into the cache and into an order-preserving response.
//! Network and file handling live outside this crate; the resolver here is
//! driven step by step with plain values.

pub mod cache;
pub mod coord;
pub mod encode;
pub mod laws;
pub mod resolver;

pub use coord::Coord;
pub use coord::ValidationError;
pub use encode::Transport;
pub use resolver::FetchDone;
pub use resolver::FetchStep;
pub use resolver::ResolveError;
pub use resolver::TransportEvent;
