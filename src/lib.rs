use vstd::prelude::*;

pub mod broadcast;
pub mod error;
pub mod operation;
pub mod startup;
mod text;

pub use broadcast::{BroadcastError, ChannelHandle, PublishRequest};
pub use error::{ApiError, ErrorResponse};
pub use operation::BroadcastOperation;
pub use startup::{connection_outcome, database_url, StartupError};

verus! {

} // verus!
