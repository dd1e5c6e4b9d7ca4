use crate::sprite::State;
use vstd::prelude::*;

verus! {

/// The frames of a creature's animations, one list per animation state.
pub struct Sheet<T> {
    idle: Vec<T>,
    sleep: Vec<T>,
    east: Vec<T>,
    northeast: Vec<T>,
    north: Vec<T>,
    northwest: Vec<T>,
    west: Vec<T>,
    southwest: Vec<T>,
    south: Vec<T>,
    southeast: Vec<T>,
}

impl<T> Sheet<T> {
    /// The frames of animation `state`, in order.
    pub closed spec fn frames(&self, state: State) -> Seq<T> {
        match state {
            State::Idle => self.idle@,
            State::Sleep => self.sleep@,
            State::East => self.east@,
            State::Northeast => self.northeast@,
            State::North => self.north@,
            State::Northwest => self.northwest@,
            State::West => self.west@,
            State::Southwest => self.southwest@,
            State::South => self.south@,
            State::Southeast => self.southeast@,
        }
    }

    /// A sheet without frames.
    pub fn new() -> (r: Sheet<T>)
        ensures
            forall|s: State| (#[trigger] r.frames(s)).len() == 0,
    {
        Sheet {
            idle: Vec::new(),
            sleep: Vec::new(),
            east: Vec::new(),
            northeast: Vec::new(),
            north: Vec::new(),
            northwest: Vec::new(),
            west: Vec::new(),
            southwest: Vec::new(),
            south: Vec::new(),
            southeast: Vec::new(),
        }
    }

    /// Appends a frame to animation `state`.
    pub fn push(&mut self, state: &State, sprite: T)
        ensures
            final(self).frames(*state) == old(self).frames(*state).push(sprite),
            forall|s: State| s != *state ==> #[trigger] final(self).frames(s) == old(self).frames(s),
    {
        match state {
            State::Idle => self.idle.push(sprite),
            State::Sleep => self.sleep.push(sprite),
            State::East => self.east.push(sprite),
            State::Northeast => self.northeast.push(sprite),
            State::North => self.north.push(sprite),
            State::Northwest => self.northwest.push(sprite),
            State::West => self.west.push(sprite),
            State::Southwest => self.southwest.push(sprite),
            State::South => self.south.push(sprite),
            State::Southeast => self.southeast.push(sprite),
        }
    }

    pub(crate) fn list(&self, state: &State) -> (r: &Vec<T>)
        ensures
            r@ == self.frames(*state),
    {
        match state {
            State::Idle => &self.idle,
            State::Sleep => &self.sleep,
            State::East => &self.east,
            State::Northeast => &self.northeast,
            State::North => &self.north,
            State::Northwest => &self.northwest,
            State::West => &self.west,
            State::Southwest => &self.southwest,
            State::South => &self.south,
            State::Southeast => &self.southeast,
        }
    }

    /// The number of frames of animation `state`.
    pub fn frame_count(&self, state: &State) -> (r: usize)
        ensures
            r == self.frames(*state).len(),
    {
        self.list(state).len()
    }

    /// The frame to show for animation `sprite_state` on its `frame`-th tick:
    /// the frames repeat in a cycle.
    pub fn get_sprite(&self, sprite_state: &State, frame: usize) -> (r: &T)
        requires
            self.frames(*sprite_state).len() > 0,
        ensures
            *r == self.frames(*sprite_state)[frame as int % self.frames(*sprite_state).len() as int],
    {
        let frames = self.list(sprite_state);
        &frames[frame % frames.len()]
    }
}

/// Encoded sprite images, one list per animation state.
pub struct SpriteSheet {
    sheet: Sheet<Vec<u8>>,
}

impl SpriteSheet {
    /// The encoded frames of animation `state`, in order.
    pub closed spec fn frames(&self, state: State) -> Seq<Seq<u8>> {
        self.sheet.frames(state).map_values(|b: Vec<u8>| b@)
    }

    /// Appends an encoded frame to animation `state`.
    pub fn push(&mut self, state: &State, bytes: Vec<u8>)
        ensures
            final(self).frames(*state) == old(self).frames(*state).push(bytes@),
            forall|s: State| s != *state ==> #[trigger] final(self).frames(s) == old(self).frames(s),
    {
        self.sheet.push(state, bytes);
        proof {
            assert(self.frames(*state) =~= old(self).frames(*state).push(bytes@));
        }
    }

    /// The number of frames of animation `state`.
    pub fn frame_count(&self, state: &State) -> (r: usize)
        ensures
            r == self.frames(*state).len(),
    {
        self.sheet.frame_count(state)
    }

    /// A copy of the frame to show for animation `sprite_state` on its
    /// `frame`-th tick: the frames repeat in a cycle.
    pub fn get_sprite(&self, sprite_state: &State, frame: usize) -> (r: Vec<u8>)
        requires
            self.frames(*sprite_state).len() > 0,
        ensures
            r@ == self.frames(*sprite_state)[frame as int % self.frames(*sprite_state).len() as int],
    {
        let bytes = self.sheet.get_sprite(sprite_state, frame);
        let r = bytes.clone();
        proof {
            assert(r@ =~= bytes@);
        }
        r
    }
}

impl Default for SpriteSheet {
    fn default() -> (r: SpriteSheet)
        ensures
            forall|s: State| (#[trigger] r.frames(s)).len() == 0,
    {
        SpriteSheet { sheet: Sheet::new() }
    }
}

} // verus!
