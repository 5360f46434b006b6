//! An ephemeral, location-aware group chat core.
//!
//! Clients are matched into a shared chat purely by inferring, from their
//! recent motion, that they travel together. Coordinates are fixed-point
//! integers (`DEGREE` units per degree, `x` = longitude, `y` = latitude),
//! distances are millimetres, speeds millimetres per second, bearings
//! millidegrees and instants milliseconds since the Unix epoch.
//!
//! Geodesic distances and bearings are measured by the caller and handed in;
//! everything that decides on them lives here.
pub mod config;
pub mod history;
pub mod inbox;
pub mod laws;
pub mod platform;
pub mod store;
pub mod trace;

pub use config::Config;
pub use history::{LocationHistory, NoTrace, Point, Sample, Span};
pub use inbox::Inbox;
pub use store::{ChatMessage, ChatMessageIn, ChatMessageOut, Plane, Vote};
pub use trace::Trace;
