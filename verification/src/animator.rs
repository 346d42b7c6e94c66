//! Animations of a widget: named, each running for a number of ticks.

use crate::props::str_equal;
use crate::store::{
    assoc_map, lemma_assoc_map_facts, lemma_assoc_map_push, lemma_assoc_map_remove,
    lemma_assoc_map_update,
};
use vstd::prelude::*;

verus! {

/// An animation to start: how many ticks it runs.
#[derive(Debug, Clone, Copy, PartialEq, Eq, Structural)]
pub struct Animation {
    pub duration: u64,
}

/// A running or finished animation.
#[derive(Debug, Clone, Copy, PartialEq, Eq, Structural)]
pub struct AnimatorState {
    pub duration: u64,
    pub elapsed: u64,
}

impl AnimatorState {
    /// An animation that is still running has ticks left.
    pub open spec fn spec_in_progress(self) -> bool {
        self.elapsed < self.duration
    }

    /// The animation after `delta_time` more ticks; it stops at its end.
    pub open spec fn advanced(self, delta_time: u64) -> AnimatorState {
        AnimatorState {
            duration: self.duration,
            elapsed: if self.elapsed + delta_time < self.duration {
                (self.elapsed + delta_time) as u64
            } else if self.elapsed < self.duration {
                self.duration
            } else {
                self.elapsed
            },
        }
    }

    /// The state of `animation` when it starts.
    pub fn new(animation: Animation) -> (state: AnimatorState)
        ensures
            state == (AnimatorState { duration: animation.duration, elapsed: 0 }),
    {
        AnimatorState { duration: animation.duration, elapsed: 0 }
    }

    /// Whether the animation is still running.
    #[verifier::when_used_as_spec(spec_in_progress)]
    pub fn in_progress(self) -> (running: bool)
        ensures
            running == self.spec_in_progress(),
    {
        self.elapsed < self.duration
    }

    /// Lets `delta_time` ticks pass.
    pub fn process(self, delta_time: u64) -> (state: AnimatorState)
        ensures
            state == self.advanced(delta_time),
    {
        if self.elapsed >= self.duration {
            self
        } else if delta_time < self.duration - self.elapsed {
            AnimatorState { duration: self.duration, elapsed: self.elapsed + delta_time }
        } else {
            AnimatorState { duration: self.duration, elapsed: self.duration }
        }
    }
}

/// The animations of one widget, by name.
#[derive(Debug)]
pub struct AnimatorStates {
    names: Vec<String>,
    states: Vec<AnimatorState>,
}

impl View for AnimatorStates {
    type V = Map<Seq<char>, AnimatorState>;

    closed spec fn view(&self) -> Map<Seq<char>, AnimatorState> {
        assoc_map(self.keys(), self.states@)
    }
}

/// Whether any animation of the map is still running.
pub open spec fn any_in_progress(states: Map<Seq<char>, AnimatorState>) -> bool {
    exists|name: Seq<char>| states.contains_key(name) && (#[trigger] states[name]).spec_in_progress()
}

impl AnimatorStates {
    #[verifier::type_invariant]
    closed spec fn inv(&self) -> bool {
        &&& self.names.len() == self.states.len()
        &&& self.keys().no_duplicates()
    }

    closed spec fn keys(&self) -> Seq<Seq<char>> {
        Seq::new(self.names@.len(), |i: int| self.names@[i]@)
    }

    /// Whether any animation is still running.
    pub open spec fn spec_in_progress(&self) -> bool {
        any_in_progress(self@)
    }

    /// No animation.
    pub fn empty() -> (states: AnimatorStates)
        ensures
            states@ == Map::<Seq<char>, AnimatorState>::empty(),
    {
        let states = AnimatorStates { names: Vec::new(), states: Vec::new() };
        states
    }

    /// One animation, just started.
    pub fn new(name: String, animation: Animation) -> (states: AnimatorStates)
        ensures
            states@ == Map::<Seq<char>, AnimatorState>::empty().insert(
                name@,
                AnimatorState { duration: animation.duration, elapsed: 0 },
            ),
    {
        let mut states = AnimatorStates::empty();
        states.change(name, Some(animation));
        states
    }

    fn position(&self, name: &str) -> (found: Option<usize>)
        ensures
            match found {
                Some(i) => i < self.keys().len() && self.keys()[i as int] == name@,
                None => !self.keys().contains(name@),
            },
    {
        let mut i: usize = 0;
        while i < self.names.len()
            invariant
                i <= self.names.len(),
                forall|j: int| 0 <= j < i ==> self.keys()[j] != name@,
            decreases self.names.len() - i,
        {
            if str_equal(self.names[i].as_str(), name) {
                return Some(i);
            }
            i += 1;
        }
        proof {
            if self.keys().contains(name@) {
                let j = self.keys().index_of(name@);
            }
        }
        None
    }

    fn take_parts(&mut self) -> (parts: (Vec<String>, Vec<AnimatorState>))
        ensures
            parts.0 == old(self).names,
            parts.1 == old(self).states,
    {
        let mut taken = AnimatorStates::empty();
        std::mem::swap(self, &mut taken);
        let AnimatorStates { names, states } = taken;
        (names, states)
    }

    /// Whether any animation is still running.
    #[verifier::when_used_as_spec(spec_in_progress)]
    #[verifier::loop_isolation(false)]
    pub fn in_progress(&self) -> (running: bool)
        ensures
            running == self.spec_in_progress(),
    {
        proof {
            use_type_invariant(self);
            lemma_assoc_map_facts(self.keys(), self.states@);
        }
        let mut i: usize = 0;
        while i < self.states.len()
            invariant
                i <= self.states.len(),
                forall|j: int| 0 <= j < i ==> !(#[trigger] self.states@[j]).spec_in_progress(),
            decreases self.states.len() - i,
        {
            if self.states[i].in_progress() {
                proof {
                    assert(self@.contains_key(self.keys()[i as int]));
                }
                return true;
            }
            i += 1;
        }
        proof {
            if any_in_progress(self@) {
                let name = choose|name: Seq<char>|
                    self@.contains_key(name) && (#[trigger] self@[name]).spec_in_progress();
                let j = self.keys().index_of(name);
            }
        }
        false
    }

    /// The animation called `name`, if there is one.
    pub fn get(&self, name: &str) -> (state: Option<AnimatorState>)
        ensures
            state == if self@.contains_key(name@) {
                Some(self@[name@])
            } else {
                None
            },
    {
        proof {
            use_type_invariant(self);
            lemma_assoc_map_facts(self.keys(), self.states@);
        }
        match self.position(name) {
            Some(i) => Some(self.states[i]),
            None => None,
        }
    }

    /// Starts the animation `name` anew with what `animation` gives, or ends
    /// and forgets it if `animation` gives nothing.
    pub fn change(&mut self, name: String, animation: Option<Animation>)
        ensures
            final(self)@ == match animation {
                Some(a) => old(self)@.insert(
                    name@,
                    AnimatorState { duration: a.duration, elapsed: 0 },
                ),
                None => old(self)@.remove(name@),
            },
    {
        proof {
            use_type_invariant(&*self);
            lemma_assoc_map_facts(self.keys(), self.states@);
        }
        let ghost keys0 = self.keys();
        let ghost states0 = self.states@;
        let found = self.position(name.as_str());
        let (mut names, mut states) = self.take_parts();
        match animation {
            Some(animation) => {
                let state = AnimatorState::new(animation);
                match found {
                    Some(i) => {
                        states.set(i, state);
                        proof {
                            lemma_assoc_map_update(keys0, states0, i as int, state);
                        }
                    },
                    None => {
                        names.push(name);
                        states.push(state);
                        proof {
                            lemma_assoc_map_push(keys0, states0, name@, state);
                            assert(Seq::new(names@.len(), |j: int| names@[j]@) == keys0.push(
                                name@,
                            ));
                        }
                    },
                }
            },
            None => {
                match found {
                    Some(i) => {
                        names.remove(i);
                        states.remove(i);
                        proof {
                            lemma_assoc_map_remove(keys0, states0, i as int);
                            assert(Seq::new(names@.len(), |j: int| names@[j]@) == keys0.remove(
                                i as int,
                            ));
                        }
                    },
                    None => {
                    },
                }
            },
        }
        *self = AnimatorStates { names, states };
    }

    /// Lets `delta_time` ticks pass for every animation.
    pub fn process(&mut self, delta_time: u64)
        ensures
            final(self)@.dom() == old(self)@.dom(),
            forall|name: Seq<char>|
                old(self)@.contains_key(name)
                    ==> #[trigger] final(self)@[name] == old(self)@[name].advanced(delta_time),
    {
        proof {
            use_type_invariant(&*self);
            lemma_assoc_map_facts(self.keys(), self.states@);
        }
        let ghost keys0 = self.keys();
        let ghost states0 = self.states@;
        let (names, mut states) = self.take_parts();
        let mut i: usize = 0;
        while i < states.len()
            invariant
                i <= states.len(),
                states.len() == states0.len(),
                forall|j: int| 0 <= j < i
                    ==> #[trigger] states@[j] == states0[j].advanced(delta_time),
                forall|j: int| i <= j < states.len() ==> #[trigger] states@[j] == states0[j],
            decreases states.len() - i,
        {
            let state = states[i].process(delta_time);
            states.set(i, state);
            i += 1;
        }
        *self = AnimatorStates { names, states };
        proof {
            lemma_assoc_map_facts(keys0, self.states@);
        }
    }
}

impl Default for AnimatorStates {
    fn default() -> (states: AnimatorStates)
        ensures
            states@ == Map::<Seq<char>, AnimatorState>::empty(),
    {
        AnimatorStates::empty()
    }
}

impl Clone for AnimatorStates {
    fn clone(&self) -> (copy: AnimatorStates)
        ensures
            copy@ == self@,
    {
        proof {
            use_type_invariant(self);
        }
        let mut names: Vec<String> = Vec::new();
        let mut states: Vec<AnimatorState> = Vec::new();
        let count = self.names.len();
        let mut i: usize = 0;
        while i < count
            invariant
                i <= count,
                count == self.names.len(),
                count == self.states.len(),
                names.len() == i,
                states.len() == i,
                forall|j: int| 0 <= j < i ==> names@[j]@ == self.names@[j]@,
                forall|j: int| 0 <= j < i ==> states@[j] == self.states@[j],
            decreases count - i,
        {
            names.push(self.names[i].clone());
            states.push(self.states[i]);
            i += 1;
        }
        proof {
            assert(Seq::new(names@.len(), |j: int| names@[j]@) == self.keys());
        }
        AnimatorStates { names, states }
    }
}

/// Changes to the animations of a widget, asked for by its hooks.
#[derive(Debug)]
pub struct AnimationUpdate {
    changes: Vec<(String, Option<Animation>)>,
}

/// The changes of a list as names and animations.
pub open spec fn changes_model(changes: Seq<(String, Option<Animation>)>) -> Seq<
    (Seq<char>, Option<Animation>),
> {
    Seq::new(changes.len(), |i: int| (changes[i].0@, changes[i].1))
}

impl View for AnimationUpdate {
    type V = Seq<(Seq<char>, Option<Animation>)>;

    closed spec fn view(&self) -> Seq<(Seq<char>, Option<Animation>)> {
        changes_model(self.changes@)
    }
}

impl AnimationUpdate {
    /// No change.
    pub fn new() -> (update: AnimationUpdate)
        ensures
            update@.len() == 0,
    {
        AnimationUpdate { changes: Vec::new() }
    }

    /// Asks for the animation `name` to start anew, or to end if `animation`
    /// gives nothing.
    pub fn change(&mut self, name: String, animation: Option<Animation>)
        ensures
            final(self)@ == old(self)@.push((name@, animation)),
    {
        self.changes.push((name, animation));
    }

    /// The changes asked for, oldest first.
    pub fn unwrap(self) -> (changes: Vec<(String, Option<Animation>)>)
        ensures
            changes_model(changes@) == self@,
    {
        self.changes
    }
}

/// What a life cycle hook has of animations: those of its widget as they are,
/// and a place to ask for changes.
#[derive(Debug)]
pub struct Animator {
    states: AnimatorStates,
    update: AnimationUpdate,
}

impl Animator {
    /// The animations of the widget as they were handed to the hook.
    pub closed spec fn states(&self) -> Map<Seq<char>, AnimatorState> {
        self.states@
    }

    /// The changes asked for so far.
    pub closed spec fn changes(&self) -> Seq<(Seq<char>, Option<Animation>)> {
        self.update@
    }

    /// An animator that shows `states` and has asked for nothing.
    pub fn new(states: AnimatorStates) -> (animator: Animator)
        ensures
            animator.states() == states@,
            animator.changes().len() == 0,
    {
        Animator { states, update: AnimationUpdate::new() }
    }

    /// Whether any animation of the widget is still running.
    pub fn in_progress(&self) -> (running: bool)
        ensures
            running == any_in_progress(self.states()),
    {
        self.states.in_progress()
    }

    /// The animation called `name`, if the widget has one.
    pub fn get(&self, name: &str) -> (state: Option<AnimatorState>)
        ensures
            state == if self.states().contains_key(name@) {
                Some(self.states()[name@])
            } else {
                None
            },
    {
        self.states.get(name)
    }

    /// Asks for the animation `name` to start anew, or to end if `animation`
    /// gives nothing. What the animator shows stays as it is.
    pub fn change(&mut self, name: String, animation: Option<Animation>)
        ensures
            final(self).states() == old(self).states(),
            final(self).changes() == old(self).changes().push((name@, animation)),
    {
        self.update.change(name, animation);
    }

    /// The changes asked for, oldest first.
    pub fn unwrap(self) -> (changes: Vec<(String, Option<Animation>)>)
        ensures
            changes_model(changes@) == self.changes(),
    {
        self.update.unwrap()
    }
}

} // verus!
