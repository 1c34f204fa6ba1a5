//! A single-threaded, non-blocking TCP reactor built on the kernel's
//! readiness-notification facility.
//!
//! The crate models the three pieces such a reactor is made of: the
//! readiness-flag vocabulary ([`flags::EventFlags`]), the kernel's interest
//! registry with its add/modify/delete discipline
//! ([`registry::InterestRegistry`]), and the event loop's connection table
//! with its per-event decisions ([`reactor::Reactor`]).

pub mod flags;
pub mod reactor;
pub mod registry;
