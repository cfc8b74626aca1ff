//! Conditions to wait for.
//!
//! A [`Wait`] is one condition: a file exists, a time has passed, a host
//! answers. A [`Waits`] joins conditions by "and" and "or". Neither ever
//! looks at the world: a pass over a tree says what it needs to see
//! ([`Probe`]), its driver takes the look and hands in what it saw
//! ([`Observation`]), and the pass decides. So every rule of the engine is
//! a function of plain values, and is proved as one.

pub mod poll;
pub mod text;
pub mod time;
pub mod wait;
pub mod waits;

pub use crate::poll::pace;
pub use crate::poll::Pace;
pub use crate::text::parse_duration;
pub use crate::text::parse_http_get;
pub use crate::text::split_http_get;
pub use crate::text::url_or_raw;
pub use crate::text::validate_tcp;
pub use crate::time::Moment;
pub use crate::time::Span;
pub use crate::time::Stamp;
pub use crate::wait::Observation;
pub use crate::wait::Probe;
pub use crate::wait::Wait;
pub use crate::waits::Step;
pub use crate::waits::Waits;
