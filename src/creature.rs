use rand::distr::weighted::WeightedIndex;
use rand::rngs::SmallRng;
use rand::Rng;
use vstd::prelude::*;

verus! {

/// The random generator that every draw of the simulation goes through.
#[verifier::external_type_specification]
#[verifier::external_body]
pub struct ExSmallRng(SmallRng);

/// Relies on rand's `WeightedIndex::new` and its `Distribution::sample`: the
/// drawn index lies below the number of weights and never names a zero weight
/// (the sampler picks a value below the total and returns the first index
/// whose running sum exceeds it). `new` fails only on an empty list, a zero
/// total or an overflowing total, which `requires` leaves out.
#[verifier::external_body]
fn draw_weighted(weights: [u8; 4], rng: &mut SmallRng) -> (r: usize)
    requires
        0 < weights@[0] + weights@[1] + weights@[2] + weights@[3] <= 255,
    ensures
        r < 4,
        weights@[r as int] > 0,
{
    rng.sample(WeightedIndex::new(weights).unwrap())
}

/// Relies on `rand::random_range` (thread-local generator): on an inclusive
/// range `0..=hi` it returns a value in that range.
#[verifier::external_body]
fn draw_up_to(hi: u8) -> (r: u8)
    ensures
        r <= hi,
{
    rand::random_range(0..=hi)
}

/// The discrete behaviour of a creature during one tick.
#[derive(Clone, Copy, Debug, PartialEq, Eq, Structural)]
pub enum State {
    Idle,
    Sleep,
    Follow,
    Flee,
}

/// The state that each column of the transition table leads to; the columns
/// are ordered Idle, Sleep, Flee, Follow, and any index past the last one
/// reads as Follow.
pub open spec fn column_state(index: int) -> State {
    if index == 0 {
        State::Idle
    } else if index == 1 {
        State::Sleep
    } else if index == 2 {
        State::Flee
    } else {
        State::Follow
    }
}

/// Weight of the transition `from -> to` in the table of the state machine.
pub open spec fn transition_weight(from: State, to: State) -> u8 {
    match (from, to) {
        (State::Idle, State::Idle) => 75,
        (State::Idle, State::Sleep) => 15,
        (State::Idle, State::Flee) => 5,
        (State::Idle, State::Follow) => 5,
        (State::Sleep, State::Idle) => 10,
        (State::Sleep, State::Sleep) => 90,
        (State::Sleep, _) => 0,
        (State::Flee, State::Idle) => 10,
        (State::Flee, State::Sleep) => 0,
        (State::Flee, State::Flee) => 75,
        (State::Flee, State::Follow) => 15,
        (State::Follow, State::Idle) => 10,
        (State::Follow, State::Sleep) => 0,
        (State::Follow, State::Flee) => 15,
        (State::Follow, State::Follow) => 75,
    }
}

impl State {
    /// The row of the transition table for this state, in column order.
    pub fn weights(&self) -> (r: [u8; 4])
        ensures
            forall|i: int| 0 <= i < 4 ==> r@[i] == transition_weight(*self, column_state(i)),
    {
        match self {
            State::Idle => [75, 15, 5, 5],
            State::Sleep => [10, 90, 0, 0],
            State::Flee => [10, 0, 75, 15],
            State::Follow => [10, 0, 15, 75],
        }
    }

    /// The state that column `index` of the transition table leads to.
    pub fn from_index(index: usize) -> (r: State)
        ensures
            r == column_state(index as int),
    {
        match index {
            0 => State::Idle,
            1 => State::Sleep,
            2 => State::Flee,
            _ => State::Follow,
        }
    }

    /// Draws the next state from this state's row of the transition table.
    /// Whatever the draw, the transition taken has a positive weight.
    pub fn next(&self, rng: &mut SmallRng) -> (r: State)
        ensures
            transition_weight(*self, r) > 0,
    {
        let weights = self.weights();
        let index = draw_weighted(weights, rng);
        State::from_index(index)
    }

    /// Whether a creature in this state asks to move during a tick.
    pub fn moves(&self) -> (r: bool)
        ensures
            r == (*self == State::Follow || *self == State::Flee),
    {
        match self {
            State::Follow | State::Flee => true,
            _ => false,
        }
    }
}

impl Default for State {
    fn default() -> (r: State)
        ensures
            r == State::Idle,
    {
        State::Idle
    }
}

/// Draws the next state of each creature, in order, from one generator: the
/// order of the draws is the order of the creatures.
pub fn next_states(states: &Vec<State>, rng: &mut SmallRng) -> (r: Vec<State>)
    ensures
        r@.len() == states@.len(),
        forall|i: int| 0 <= i < states@.len() ==> transition_weight(states@[i], #[trigger] r@[i]) > 0,
{
    let mut r: Vec<State> = Vec::new();
    let mut i: usize = 0;
    while i < states.len()
        invariant
            i <= states@.len(),
            r@.len() == i,
            forall|k: int| 0 <= k < i ==> transition_weight(states@[k], #[trigger] r@[k]) > 0,
        decreases states@.len() - i,
    {
        r.push(states[i].next(rng));
        i += 1;
    }
    r
}

/// A creature state together with the number of ticks in a row the creature
/// has kept it (saturating at 255).
#[derive(Clone, Copy, Debug, PartialEq, Eq, Structural)]
pub enum CreatureState {
    Idle(u8),
    Sleep(u8),
    Flee(u8),
    Follow(u8),
}

impl CreatureState {
    pub open spec fn kind(self) -> State {
        match self {
            CreatureState::Idle(_) => State::Idle,
            CreatureState::Sleep(_) => State::Sleep,
            CreatureState::Flee(_) => State::Flee,
            CreatureState::Follow(_) => State::Follow,
        }
    }

    pub open spec fn ticks(self) -> u8 {
        match self {
            CreatureState::Idle(d) => d,
            CreatureState::Sleep(d) => d,
            CreatureState::Flee(d) => d,
            CreatureState::Follow(d) => d,
        }
    }

    /// A state of the given kind, entered just now.
    pub open spec fn fresh(kind: State) -> CreatureState {
        match kind {
            State::Idle => CreatureState::Idle(0),
            State::Sleep => CreatureState::Sleep(0),
            State::Flee => CreatureState::Flee(0),
            State::Follow => CreatureState::Follow(0),
        }
    }

    /// A fresh state drawn at random from the thread-local generator: one of
    /// five draws, Idle, Sleep, Flee or (for the last two) Follow.
    pub fn random() -> (r: CreatureState)
        ensures
            r.ticks() == 0,
    {
        let r = draw_up_to(4);
        match r {
            0 => CreatureState::Idle(0),
            1 => CreatureState::Sleep(0),
            2 => CreatureState::Flee(0),
            _ => CreatureState::Follow(0),
        }
    }

    /// The row of the transition table for this state's kind.
    pub fn weights(&self) -> (r: [u8; 4])
        ensures
            forall|i: int| 0 <= i < 4 ==> r@[i] == transition_weight(self.kind(), column_state(i)),
    {
        match self {
            CreatureState::Idle(_) => State::Idle.weights(),
            CreatureState::Sleep(_) => State::Sleep.weights(),
            CreatureState::Flee(_) => State::Flee.weights(),
            CreatureState::Follow(_) => State::Follow.weights(),
        }
    }

    /// The state after taking column `index` of the transition table: the
    /// same kind counts one more tick, another kind starts at zero.
    pub fn with_index(&self, index: usize) -> (r: CreatureState)
        ensures
            r.kind() == column_state(index as int),
            r.kind() == self.kind() ==> r.ticks() == if self.ticks() < 255 {
                (self.ticks() + 1) as u8
            } else {
                255u8
            },
            r.kind() != self.kind() ==> r == CreatureState::fresh(r.kind()),
    {
        let kind = State::from_index(index);
        match (self, kind) {
            (CreatureState::Idle(d), State::Idle) => CreatureState::Idle(saturating_tick(*d)),
            (CreatureState::Sleep(d), State::Sleep) => CreatureState::Sleep(saturating_tick(*d)),
            (CreatureState::Flee(d), State::Flee) => CreatureState::Flee(saturating_tick(*d)),
            (CreatureState::Follow(d), State::Follow) => CreatureState::Follow(saturating_tick(*d)),
            (_, State::Idle) => CreatureState::Idle(0),
            (_, State::Sleep) => CreatureState::Sleep(0),
            (_, State::Flee) => CreatureState::Flee(0),
            (_, State::Follow) => CreatureState::Follow(0),
        }
    }

    /// Draws the next state from this state's row of the transition table.
    pub fn next(&self, rng: &mut SmallRng) -> (r: CreatureState)
        ensures
            transition_weight(self.kind(), r.kind()) > 0,
            r.kind() == self.kind() ==> r.ticks() == if self.ticks() < 255 {
                (self.ticks() + 1) as u8
            } else {
                255u8
            },
            r.kind() != self.kind() ==> r == CreatureState::fresh(r.kind()),
    {
        let weights = self.weights();
        let index = draw_weighted(weights, rng);
        self.with_index(index)
    }
}

fn saturating_tick(d: u8) -> (r: u8)
    ensures
        r == if d < 255 {
            (d + 1) as u8
        } else {
            255u8
        },
{
    if d < 255 {
        d + 1
    } else {
        255
    }
}

/// What is shown of a creature beside its position: its label and a link.
#[derive(Clone, Debug, PartialEq, Eq)]
pub struct CreatureMetadata {
    pub display_name: String,
    pub url: String,
}

} // verus!
