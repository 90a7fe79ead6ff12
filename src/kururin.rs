//! The game state of Kuru Kuru Kururin on the Game Boy Advance, and the
//! transitions its splits are decided on.
use vstd::prelude::*;
use crate::memory::Readable;
use crate::pointer::{current_value, observed, ok_value, MemoryWatcher, PathReadError};

verus! {

/// The top-level screen of the game, as the byte the game stores.
#[derive(Clone, Copy, Debug, PartialEq, Eq, Structural)]
pub enum GameState {
    /// Start-up, the opening cutscene and the title screen's lead-in.
    Boot,
    PressStart,
    SaveFiles,
    Game,
}

impl crate::value::Decode for GameState {
    open spec fn spec_size() -> nat {
        1
    }

    open spec fn spec_decode(b: Seq<u8>) -> Option<GameState> {
        if b[0] == 0 {
            Some(GameState::Boot)
        } else if b[0] == 1 {
            Some(GameState::PressStart)
        } else if b[0] == 2 {
            Some(GameState::SaveFiles)
        } else if b[0] == 3 {
            Some(GameState::Game)
        } else {
            None
        }
    }

    open spec fn spec_default() -> GameState {
        GameState::Boot
    }

    fn size() -> (r: usize) {
        1
    }

    fn decode(b: &[u8]) -> (r: Option<GameState>) {
        let v = b[0];
        if v == 0 {
            Some(GameState::Boot)
        } else if v == 1 {
            Some(GameState::PressStart)
        } else if v == 2 {
            Some(GameState::SaveFiles)
        } else if v == 3 {
            Some(GameState::Game)
        } else {
            None
        }
    }

    fn default_value() -> (r: GameState) {
        GameState::Boot
    }

    fn same(&self, other: &GameState) -> (r: bool) {
        *self == *other
    }
}

/// The game flag set while a level's timer runs.
pub const FLAG_HAS_STARTED: u32 = 1 << 1;
/// The game flag set once the level is completed.
pub const FLAG_HAS_FINISHED: u32 = 1 << 3;

/// Whether the flags `flag` went from not all set to all set between the
/// previous tick and this one; never on the first tick.
pub open spec fn just_enabled(old: Option<u32>, current: u32, flag: u32) -> bool {
    match old {
        None => false,
        Some(o) => o & flag != flag && current & flag == flag,
    }
}

/// Whether `flag` became set in the watched flags this tick.
pub fn flag_just_enabled<'a, R: Readable>(flags: &mut MemoryWatcher<'a, R, u32>, flag: u32) -> (r: Result<bool, PathReadError>)
    ensures
        final(flags).source() == old(flags).source(),
        old(flags)@.old is None ==> r == Ok::<bool, PathReadError>(false) && final(flags)@ == old(flags)@,
        old(flags)@.old is Some ==> exists|fetched: Option<u32>|
            final(flags)@ == observed(old(flags)@, fetched) && match current_value(old(flags)@, fetched) {
                Some(c) => r == Ok::<bool, PathReadError>(just_enabled(old(flags)@.old, c, flag)),
                None => r is Err,
            },
{
    let o = match flags.read_old() {
        Some(o) => o,
        None => {
            return Ok(false);
        },
    };
    let ghost before = flags@;
    let c = flags.current();
    let ghost f = choose|f: Option<u32>| flags@ == observed(before, f) && ok_value(c) == current_value(before, f);
    match c {
        Ok(c) => Ok(o & flag != flag && c & flag == flag),
        Err(e) => Err(e),
    }
}

} // verus!
