//! Decision logic of the Co-op Cloud mDNS publisher: the Avahi daemon's
//! state and status report, and the bookkeeping of which apps currently
//! have an mDNS record on the local network.

pub mod avahi;
pub mod clock;
pub mod published_apps;
pub mod publish;
