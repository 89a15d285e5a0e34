//! The voice watchdog: a member who joins one of the watched channels is
//! disconnected if they are still there half an hour later.

use vstd::prelude::*;
use crate::events::Handler;

verus! {

/// The first watched voice channel.
pub const WATCHED_FIRST: u64 = 454119833681002506;

/// The second watched voice channel.
pub const WATCHED_SECOND: u64 = 312603720934227968;

/// How long a member may stay in a watched channel, in seconds.
pub const WATCH_LIMIT_SECS: u64 = 1800;

/// `c` is a watched channel.
pub open spec fn is_watched(c: u64) -> bool {
    c == WATCHED_FIRST || c == WATCHED_SECOND
}

impl Handler {
    /// The channel to watch after a voice-state change that put a member in
    /// `channel` (`None`: they left voice): that channel if it is watched.
    /// The member is to be checked `WATCH_LIMIT_SECS` later.
    pub fn voice_state_update(&self, channel: Option<u64>) -> (r: Option<u64>)
        ensures
            r == (match channel {
                Some(c) => if is_watched(c) {
                    Some(c)
                } else {
                    None
                },
                None => None,
            }),
    {
        match channel {
            Some(c) => {
                if c == WATCHED_FIRST || c == WATCHED_SECOND {
                    Some(c)
                } else {
                    None
                }
            },
            None => None,
        }
    }
}

/// Whether the member `user` is among `members` of the watched channel, so
/// is to be disconnected once the limit has passed.
pub fn still_in_channel(members: &Vec<u64>, user: u64) -> (r: bool)
    ensures
        r == members@.contains(user),
{
    let mut i: usize = 0;
    while i < members.len()
        invariant
            i <= members@.len(),
            forall|j: int| 0 <= j < i ==> members@[j] != user,
        decreases members@.len() - i,
    {
        if members[i] == user {
            return true;
        }
        i = i + 1;
    }
    false
}

} // verus!
