//! Widget state as a component sees it: a snapshot to read and a place to
//! leave a replacement.

use crate::props::{Props, PropsValueView};
use vstd::prelude::*;

verus! {

/// A replacement for a widget's state, left by the widget for the next pass.
#[derive(Debug)]
pub struct StateUpdate {
    pending: Option<Props>,
}

impl View for StateUpdate {
    type V = Option<Map<Seq<char>, PropsValueView>>;

    closed spec fn view(&self) -> Option<Map<Seq<char>, PropsValueView>> {
        match self.pending {
            Some(props) => Some(props@),
            None => None,
        }
    }
}

impl StateUpdate {
    /// No replacement.
    pub fn new() -> (update: StateUpdate)
        ensures
            update@.is_none(),
    {
        StateUpdate { pending: None }
    }

    /// Leaves `data` as the replacement, in place of an earlier one.
    pub fn write(&mut self, data: Props)
        ensures
            final(self)@ == Some(data@),
    {
        self.pending = Some(data);
    }

    /// The replacement that was left, if any.
    pub fn unwrap(self) -> (pending: Option<Props>)
        ensures
            match pending {
                Some(props) => self@ == Some(props@),
                None => self@.is_none(),
            },
    {
        self.pending
    }
}

/// The state of a widget during a pass.
#[derive(Debug)]
pub struct State {
    data: Props,
    update: StateUpdate,
}

impl State {
    /// The state as it was when the pass began.
    pub closed spec fn data(&self) -> Map<Seq<char>, PropsValueView> {
        self.data@
    }

    /// The replacement left for the next pass.
    pub closed spec fn pending(&self) -> Option<Map<Seq<char>, PropsValueView>> {
        self.update@
    }

    /// A state that shows `data` and has no replacement yet.
    pub fn new(data: Props) -> (state: State)
        ensures
            state.data() == data@,
            state.pending().is_none(),
    {
        State { data, update: StateUpdate::new() }
    }

    /// The state as it was when the pass began.
    pub fn read(&self) -> (data: &Props)
        ensures
            data@ == self.data(),
    {
        &self.data
    }

    /// Leaves `data` as the state of the next pass. What is read stays as it
    /// is.
    pub fn write(&mut self, data: Props)
        ensures
            final(self).data() == old(self).data(),
            final(self).pending() == Some(data@),
    {
        self.update.write(data);
    }

    /// The replacement that was left, if any.
    pub fn unwrap(self) -> (pending: Option<Props>)
        ensures
            match pending {
                Some(props) => self.pending() == Some(props@),
                None => self.pending().is_none(),
            },
    {
        self.update.unwrap()
    }
}

} // verus!
