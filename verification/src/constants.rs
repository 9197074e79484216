use vstd::prelude::*;

verus! {

/// The default epoch, in milliseconds since the Unix epoch
/// (2010-11-04T01:42:54.657Z).
pub const TWITTER_EPOCH: u64 = 1288834974657;

/// The least timestamp that does not fit its field: 2^41.
pub const TIMESTAMP_LIMIT: u64 = 0x200_0000_0000;

/// The least instance number that does not fit its field: 2^10.
pub const INSTANCE_LIMIT: u16 = 0x400;

/// The least sequence number that does not fit its field: 2^12.
pub const SEQUENCE_LIMIT: u16 = 0x1000;

} // verus!
