use crate::sheet::Sheet;
use crate::sprite::State;
use vstd::prelude::*;

verus! {

/// The image paths of a creature's animations, one list per animation state,
/// as the creature descriptor gives them.
pub struct Loader {
    paths: Sheet<String>,
}

/// Each path of `paths`, tagged with the animation `state` it belongs to.
pub open spec fn tagged(state: State, paths: Seq<String>) -> Seq<(State, String)> {
    paths.map_values(|p: String| (state, p))
}

impl Loader {
    /// The image paths of animation `state`, in order.
    pub closed spec fn paths(&self, state: State) -> Seq<String> {
        self.paths.frames(state)
    }

    /// Every image path with its animation state, in the order in which they
    /// are loaded: idle, sleep, then the compass directions counterclockwise
    /// from east; each list in its own order.
    pub open spec fn load_order(&self) -> Seq<(State, String)> {
        tagged(State::Idle, self.paths(State::Idle)) + tagged(State::Sleep, self.paths(State::Sleep))
            + tagged(State::East, self.paths(State::East)) + tagged(
            State::Northeast,
            self.paths(State::Northeast),
        ) + tagged(State::North, self.paths(State::North)) + tagged(
            State::Northwest,
            self.paths(State::Northwest),
        ) + tagged(State::West, self.paths(State::West)) + tagged(
            State::Southwest,
            self.paths(State::Southwest),
        ) + tagged(State::South, self.paths(State::South)) + tagged(
            State::Southeast,
            self.paths(State::Southeast),
        )
    }

    /// A loader without paths.
    pub fn new() -> (r: Loader)
        ensures
            forall|s: State| (#[trigger] r.paths(s)).len() == 0,
    {
        Loader { paths: Sheet::new() }
    }

    /// Appends an image path to animation `state`.
    pub fn push(&mut self, state: &State, path: String)
        ensures
            final(self).paths(*state) == old(self).paths(*state).push(path),
            forall|s: State| s != *state ==> #[trigger] final(self).paths(s) == old(self).paths(s),
    {
        self.paths.push(state, path);
    }

    /// Every image path with its animation state, in load order.
    pub fn entries(&self) -> (r: Vec<(State, String)>)
        ensures
            r@ == self.load_order(),
    {
        let mut out: Vec<(State, String)> = Vec::new();
        append_tagged(&mut out, State::Idle, self.paths.list(&State::Idle));
        append_tagged(&mut out, State::Sleep, self.paths.list(&State::Sleep));
        append_tagged(&mut out, State::East, self.paths.list(&State::East));
        append_tagged(&mut out, State::Northeast, self.paths.list(&State::Northeast));
        append_tagged(&mut out, State::North, self.paths.list(&State::North));
        append_tagged(&mut out, State::Northwest, self.paths.list(&State::Northwest));
        append_tagged(&mut out, State::West, self.paths.list(&State::West));
        append_tagged(&mut out, State::Southwest, self.paths.list(&State::Southwest));
        append_tagged(&mut out, State::South, self.paths.list(&State::South));
        append_tagged(&mut out, State::Southeast, self.paths.list(&State::Southeast));
        proof {
            assert(out@ =~= self.load_order());
        }
        out
    }
}

fn append_tagged(out: &mut Vec<(State, String)>, state: State, paths: &Vec<String>)
    ensures
        final(out)@ == old(out)@ + tagged(state, paths@),
{
    let ghost start = out@;
    let mut k: usize = 0;
    while k < paths.len()
        invariant
            k <= paths@.len(),
            out@ == start + tagged(state, paths@.take(k as int)),
        decreases paths@.len() - k,
    {
        out.push((state, paths[k].clone()));
        proof {
            assert(tagged(state, paths@.take(k + 1)) =~= tagged(state, paths@.take(k as int)).push(
                (state, paths@[k as int]),
            ));
        }
        k += 1;
    }
    proof {
        assert(paths@.take(k as int) =~= paths@);
    }
}

} // verus!
