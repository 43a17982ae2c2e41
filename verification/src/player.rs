//! Whether the player's ship is in play, and when it may come back.

use vstd::prelude::*;
use crate::constants::PLAYER_RESPAWN_DELAY;

verus! {

/// The state of the player: in play (`on`), or away since `last_shot`
/// (milliseconds since the start), which is unset before the first entry.
#[derive(Clone, Copy, Debug, PartialEq, Eq, Structural)]
pub struct PlayerState {
    pub on: bool,
    pub last_shot: Option<u64>,
}

impl PlayerState {
    /// The state after the ship was destroyed at `time`.
    pub open spec fn shot_spec(self, time: u64) -> PlayerState {
        PlayerState { on: false, last_shot: Some(time) }
    }

    /// The state after the ship entered.
    pub open spec fn spawned_spec(self) -> PlayerState {
        PlayerState { on: true, last_shot: None }
    }

    /// The ship may enter at `now`: it is away, and was never destroyed or
    /// was destroyed more than the respawn delay ago.
    pub open spec fn may_spawn(self, now: u64) -> bool {
        !self.on && match self.last_shot {
            None => true,
            Some(time) => now > time + PLAYER_RESPAWN_DELAY,
        }
    }

    /// Records that the ship was destroyed at `time`.
    pub fn shot(&mut self, time: u64)
        ensures
            *final(self) == old(self).shot_spec(time),
    {
        self.on = false;
        self.last_shot = Some(time);
    }

    /// Records that the ship entered.
    pub fn spawned(&mut self)
        ensures
            *final(self) == old(self).spawned_spec(),
    {
        self.on = true;
        self.last_shot = None;
    }

    /// Decides `may_spawn`.
    pub fn can_spawn(&self, now: u64) -> (out: bool)
        ensures
            out == self.may_spawn(now),
    {
        if self.on {
            return false;
        }
        match self.last_shot {
            None => true,
            Some(time) => now > time && now - time > PLAYER_RESPAWN_DELAY,
        }
    }
}

impl Default for PlayerState {
    fn default() -> (out: Self)
        ensures
            out == (PlayerState { on: false, last_shot: None }),
    {
        PlayerState { on: false, last_shot: None }
    }
}

/// The horizontal direction that the keys ask for: left wins over right.
pub open spec fn steering(left: bool, right: bool) -> i8 {
    if left {
        -1i8
    } else if right {
        1i8
    } else {
        0i8
    }
}

/// Computes `steering`.
pub fn steer(left: bool, right: bool) -> (out: i8)
    ensures
        out == steering(left, right),
        -1 <= out <= 1,
{
    if left {
        -1
    } else if right {
        1
    } else {
        0
    }
}

/// A ship destroyed at `time` stays away through the respawn delay and may
/// enter at any moment after it, and at no other.
pub proof fn respawn_waits_for_delay(state: PlayerState, time: u64, now: u64)
    ensures
        state.shot_spec(time).may_spawn(now) <==> now > time + PLAYER_RESPAWN_DELAY,
        !state.spawned_spec().may_spawn(now),
{
}

} // verus!
