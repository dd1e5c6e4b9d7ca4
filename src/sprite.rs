use crate::creature;
use vstd::prelude::*;

verus! {

/// The animation a creature shows: at rest, asleep, or walking in one of
/// eight compass directions.
#[derive(Clone, Copy, Debug, PartialEq, Eq, Structural)]
pub enum State {
    Idle,
    Sleep,
    East,
    Northeast,
    North,
    Northwest,
    West,
    Southwest,
    South,
    Southeast,
}

/// The animation states under their longer name.
pub type SpriteState = State;

/// The direction of a nonzero motion is the angle `atan2(dy, dx)`. The
/// sectors are the half-open intervals of width π/4 centred on the compass
/// directions, numbered counterclockwise from the one centred on south-west
/// (0) to the one centred on north-west (6); any other number stands for the
/// interval around ±π, which is west.
pub open spec fn sector_state(sector: int) -> State {
    if sector == 0 {
        State::Southwest
    } else if sector == 1 {
        State::South
    } else if sector == 2 {
        State::Southeast
    } else if sector == 3 {
        State::East
    } else if sector == 4 {
        State::Northeast
    } else if sector == 5 {
        State::North
    } else if sector == 6 {
        State::Northwest
    } else {
        State::West
    }
}

/// The animation after a tick: `None` stands for a zero motion, which shows
/// sleep for a sleeping creature and rest otherwise; a motion shows the
/// compass direction of its sector.
pub open spec fn motion_state(sector: Option<usize>, creature_state: creature::State) -> State {
    match sector {
        None => if creature_state == creature::State::Sleep {
            State::Sleep
        } else {
            State::Idle
        },
        Some(s) => sector_state(s as int),
    }
}

impl State {
    /// The walking animation for a motion whose direction lies in `sector`
    /// (see `sector_state`).
    pub fn from_sector(sector: usize) -> (r: State)
        ensures
            r == sector_state(sector as int),
    {
        match sector {
            0 => State::Southwest,
            1 => State::South,
            2 => State::Southeast,
            3 => State::East,
            4 => State::Northeast,
            5 => State::North,
            6 => State::Northwest,
            _ => State::West,
        }
    }

    /// The animation for a tick's motion (`None`: no motion) of a creature in
    /// `creature_state`.
    pub fn from_motion(sector: Option<usize>, creature_state: &creature::State) -> (r: State)
        ensures
            r == motion_state(sector, *creature_state),
    {
        match sector {
            None => match creature_state {
                creature::State::Sleep => State::Sleep,
                _ => State::Idle,
            },
            Some(s) => State::from_sector(s),
        }
    }
}

/// The animation a creature shows and how many ticks in a row it has shown
/// it, which selects the frame.
#[derive(Clone, Copy, Debug, PartialEq, Eq, Structural)]
pub struct Animation {
    pub state: State,
    pub frame: usize,
}

impl Animation {
    /// A creature starts at rest, on the first frame.
    pub fn new() -> (r: Animation)
        ensures
            r.state == State::Idle,
            r.frame == 0,
    {
        Animation { state: State::Idle, frame: 0 }
    }

    /// The animation after a tick that shows `next`: the frame counter goes
    /// up by one where the state stays the same, and starts over otherwise.
    pub fn advance(&self, next: State) -> (r: Animation)
        requires
            next == self.state ==> self.frame < usize::MAX,
        ensures
            r.state == next,
            r.frame == if next == self.state {
                self.frame + 1
            } else {
                0
            },
    {
        if next == self.state {
            Animation { state: next, frame: self.frame + 1 }
        } else {
            Animation { state: next, frame: 0 }
        }
    }

    /// The animation after a tick whose motion lies in `sector` (`None`: no
    /// motion) for a creature in `creature_state`.
    pub fn after_motion(&self, sector: Option<usize>, creature_state: &creature::State) -> (r:
        Animation)
        requires
            motion_state(sector, *creature_state) == self.state ==> self.frame < usize::MAX,
        ensures
            r.state == motion_state(sector, *creature_state),
            r.frame == if r.state == self.state {
                self.frame + 1
            } else {
                0
            },
    {
        self.advance(State::from_motion(sector, creature_state))
    }
}

} // verus!
