//! A time-bounded cache that maps game-server identities to region codes,
//! with its snapshot checks, the candidate selection of a rebuild, and the
//! decisions of the interactive control loop.

pub mod cache;
pub mod control;
pub mod index;
pub mod persist;
pub mod pipeline;
pub mod record;
pub mod time;
