//! Signals: what widgets tell the application that hosts them.

use crate::messenger::Message;
use crate::props::PropsValueView;
use crate::widget::{WidgetId, WidgetIdView};
use vstd::prelude::*;

verus! {

/// A message to the host, with the identity of the widget that sent it.
pub type Signal = (WidgetId, Message);

/// What a life cycle hook sends signals through.
#[derive(Debug)]
pub struct SignalSender {
    id: WidgetId,
    outgoing: Vec<Signal>,
}

impl SignalSender {
    /// The identity that the signals carry.
    pub closed spec fn id(&self) -> WidgetIdView {
        self.id@
    }

    /// The contents of the signals sent so far, oldest first.
    pub closed spec fn sent(&self) -> Seq<Map<Seq<char>, PropsValueView>> {
        Seq::new(self.outgoing@.len(), |i: int| self.outgoing@[i].1@)
    }

    #[verifier::type_invariant]
    closed spec fn inv(&self) -> bool {
        forall|i: int| 0 <= i < self.outgoing@.len()
            ==> (#[trigger] self.outgoing@[i]).0@ == self.id@
    }

    /// A sender for the widget `id`.
    pub fn new(id: WidgetId) -> (sender: SignalSender)
        ensures
            sender.id() == id@,
            sender.sent().len() == 0,
    {
        SignalSender { id, outgoing: Vec::new() }
    }

    /// Sends `message` to the host.
    pub fn write(&mut self, message: Message)
        ensures
            final(self).id() == old(self).id(),
            final(self).sent() == old(self).sent().push(message@),
    {
        proof {
            use_type_invariant(&*self);
        }
        let mut taken = SignalSender::new(self.id.clone());
        std::mem::swap(self, &mut taken);
        let SignalSender { id, mut outgoing } = taken;
        outgoing.push((id.clone(), message));
        *self = SignalSender { id, outgoing };
    }

    /// The signals that were sent, oldest first, each with the identity of the
    /// widget.
    pub fn unwrap(self) -> (outgoing: Vec<Signal>)
        ensures
            outgoing@.len() == self.sent().len(),
            forall|i: int|
                0 <= i < outgoing@.len() ==> (#[trigger] outgoing@[i]).0@ == self.id()
                    && outgoing@[i].1@ == self.sent()[i],
    {
        proof {
            use_type_invariant(&self);
        }
        self.outgoing
    }
}

} // verus!
