//! The first player of the game and the actor that embodies it.
use vstd::prelude::*;
use vstd::string::StringSliceAdditionalSpecFns;
use crate::memory::{read_value, ReadError, Readable};
use crate::rtti::{read_failed, RttiError};
use super::pclass::{known_field_offset, PClass};

verus! {

pub const PLAYER_ACTOR_OFFSET: u64 = 0x0;
pub const PLAYER_STATE_OFFSET: u64 = 0x8;

/// The state of a player, as the engine's `playerstate_t`.
#[derive(Clone, Copy, Debug, PartialEq, Eq, Structural)]
pub enum PlayerState {
    /// Playing or camping.
    Live,
    /// Dead on the ground, the view following the killer.
    Dead,
    /// Ready to restart or respawn.
    Reborn,
    /// Entered the game.
    Enter,
    /// Left the game.
    Gone,
}

/// The player state the engine stores as `v`, in the order of its enum.
pub open spec fn player_state_of(v: nat) -> Option<PlayerState> {
    if v == 0 {
        Some(PlayerState::Live)
    } else if v == 1 {
        Some(PlayerState::Dead)
    } else if v == 2 {
        Some(PlayerState::Reborn)
    } else if v == 3 {
        Some(PlayerState::Enter)
    } else if v == 4 {
        Some(PlayerState::Gone)
    } else {
        None
    }
}

impl crate::value::Decode for PlayerState {
    open spec fn spec_size() -> nat {
        4
    }

    open spec fn spec_decode(b: Seq<u8>) -> Option<PlayerState> {
        player_state_of(crate::bytes::le_value(b))
    }

    open spec fn spec_default() -> PlayerState {
        PlayerState::Live
    }

    fn size() -> (r: usize) {
        4
    }

    fn decode(b: &[u8]) -> (r: Option<PlayerState>) {
        proof {
            assert(b@.subrange(0, 4) =~= b@);
        }
        let v = crate::bytes::read_le(b, 4);
        if v == 0 {
            Some(PlayerState::Live)
        } else if v == 1 {
            Some(PlayerState::Dead)
        } else if v == 2 {
            Some(PlayerState::Reborn)
        } else if v == 3 {
            Some(PlayerState::Enter)
        } else if v == 4 {
            Some(PlayerState::Gone)
        } else {
            None
        }
    }

    fn default_value() -> (r: PlayerState) {
        PlayerState::Live
    }

    fn same(&self, other: &PlayerState) -> (r: bool) {
        *self == *other
    }
}

/// The longest inventory chain followed.
pub const INVENTORY_MAX: u64 = 0x1_0000;

/// A player: the `player_t` record. Its actor and state are read once per
/// tick.
pub struct Player<'a, R: Readable> {
    readable: &'a R,
    address: u64,
    actor: Option<u64>,
    state: Option<PlayerState>,
}

impl<'a, R: Readable> Player<'a, R> {
    /// The actor read this tick, if any.
    pub closed spec fn actor_memo(&self) -> Option<u64> {
        self.actor
    }

    /// The state read this tick, if any.
    pub closed spec fn state_memo(&self) -> Option<PlayerState> {
        self.state
    }

    /// The player whose record lies at `address`.
    pub fn new(readable: &'a R, address: u64) -> (r: Self)
        ensures
            r.actor_memo() is None && r.state_memo() is None,
    {
        Player { readable, address, actor: None, state: None }
    }

    /// Forgets what was read, so that the next tick reads again.
    pub fn invalidate_cache(&mut self)
        ensures
            final(self).actor_memo() is None && final(self).state_memo() is None,
    {
        self.actor = None;
        self.state = None;
    }

    /// The address of the player's actor.
    pub fn actor(&mut self) -> (r: Result<u64, ReadError>)
        ensures
            old(self).actor_memo() is Some ==> r == Ok::<u64, ReadError>(old(self).actor_memo()->Some_0),
            r is Ok ==> final(self).actor_memo() == Some(r->Ok_0),
            final(self).state_memo() == old(self).state_memo(),
    {
        match self.actor {
            Some(a) => Ok(a),
            None => {
                let a = read_value::<R, u64>(self.readable, self.address.wrapping_add(PLAYER_ACTOR_OFFSET))?;
                self.actor = Some(a);
                Ok(a)
            },
        }
    }

    /// The player's state.
    pub fn state(&mut self) -> (r: Result<PlayerState, ReadError>)
        ensures
            old(self).state_memo() is Some ==> r == Ok::<PlayerState, ReadError>(old(self).state_memo()->Some_0),
            r is Ok ==> final(self).state_memo() == Some(r->Ok_0),
            final(self).actor_memo() == old(self).actor_memo(),
    {
        match self.state {
            Some(s) => Ok(s),
            None => {
                let s = read_value::<R, PlayerState>(self.readable, self.address.wrapping_add(PLAYER_STATE_OFFSET))?;
                self.state = Some(s);
                Ok(s)
            },
        }
    }

    /// The address of the actor's position: the actor plus the offset of the
    /// `pos` field of the actor class.
    pub fn pos_address(&mut self, actor_class: &mut PClass<'a, R>) -> (r: Result<u64, RttiError>)
        ensures
            r is Ok ==> (final(self).actor_memo() matches Some(a) && known_field_offset(
                final(actor_class)@,
                "pos".spec_bytes(),
            ) matches Some(o) && r->Ok_0 == a.wrapping_add(o as u64)),
    {
        let o = actor_class.get_field_offset("pos")?;
        let a = match self.actor() {
            Ok(a) => a,
            Err(e) => {
                return Err(read_failed(e));
            },
        };
        Ok(a.wrapping_add(o as u64))
    }

    /// The inventory items the actor carries: the chain that starts at the
    /// actor's `Inv` field and goes on through each item's own `Inv` field,
    /// up to a null pointer.
    pub fn get_inventories(&mut self, actor_class: &mut PClass<'a, R>) -> (r: Result<Vec<u64>, RttiError>)
        ensures
            r is Ok ==> r->Ok_0@.len() <= INVENTORY_MAX && forall|k: int| 0 <= k < r->Ok_0@.len() ==> #[trigger] r->Ok_0@[k] != 0,
    {
        let o = actor_class.get_field_offset("Inv")? as u64;
        let a = match self.actor() {
            Ok(a) => a,
            Err(e) => {
                return Err(read_failed(e));
            },
        };
        let mut inv: u64 = match read_value::<R, u64>(self.readable, a.wrapping_add(o)) {
            Ok(v) => v,
            Err(e) => {
                return Err(read_failed(e));
            },
        };
        let mut out: Vec<u64> = Vec::new();
        let mut n: u64 = 0;
        while inv != 0 && n < INVENTORY_MAX
            invariant
                n == out@.len(),
                n <= INVENTORY_MAX,
                forall|k: int| 0 <= k < out@.len() ==> #[trigger] out@[k] != 0,
            decreases INVENTORY_MAX - n,
        {
            out.push(inv);
            n = n + 1;
            inv = match read_value::<R, u64>(self.readable, inv.wrapping_add(o)) {
                Ok(v) => v,
                Err(e) => {
                    return Err(read_failed(e));
                },
            };
        }
        Ok(out)
    }
}

} // verus!
