//! Session maintenance of the RTP Control Protocol: member and sender accounting,
//! the randomized transmission interval and the scheduling decisions around it.
use vstd::prelude::*;

verus! {

/// Synchronization source identifier of a session participant.
pub type Ssrc = u32;

/// Contributing source identifier carried inside a mixed media packet.
pub type Csrc = u32;

} // verus!

pub mod interval;
pub mod session;
pub mod laws;
