//! The stream record.

use vstd::prelude::*;

verus! {

/// One linear vesting schedule: `total_amount` unlocks for `recipient` evenly
/// over `duration` time units from `start_time` on.
#[derive(Debug, PartialEq, Eq)]
pub struct Stream {
    /// The key under which the host stores this record.
    pub id: [u8; 32],
    /// The principal who may withdraw, in its textual form.
    pub recipient: String,
    /// Everything the stream pays out over its lifetime.
    pub total_amount: i128,
    /// What has been paid out so far.
    pub withdrawn: i128,
    /// When vesting starts.
    pub start_time: u64,
    /// How long vesting takes. A stream of duration zero is fully vested at once.
    pub duration: u64,
    /// False once the stream has been closed.
    pub is_active: bool,
}

impl Clone for Stream {
    fn clone(&self) -> (copy: Stream)
        ensures
            copy == *self,
    {
        Stream {
            id: self.id,
            recipient: self.recipient.clone(),
            total_amount: self.total_amount,
            withdrawn: self.withdrawn,
            start_time: self.start_time,
            duration: self.duration,
            is_active: self.is_active,
        }
    }
}

impl Stream {
    /// The balance invariant: nothing negative was paid out, and no more than
    /// the stream holds.
    pub open spec fn is_valid(self) -> bool {
        0 <= self.withdrawn <= self.total_amount
    }

    /// This stream with `withdrawn` replaced and every other field kept.
    pub open spec fn with_withdrawn(self, withdrawn: i128) -> Stream {
        Stream { withdrawn, ..self }
    }
}

} // verus!
