//! Messages between widgets.

use crate::props::{Props, PropsValueView};
use crate::widget::{WidgetId, WidgetIdView};
use vstd::prelude::*;

verus! {

/// What one widget tells another.
pub type Message = Props;

/// The messages waiting for one widget, oldest first.
pub type Messages = Vec<Message>;

/// Messages on their way, each with the identity of the widget it is for.
#[derive(Debug)]
pub struct MessageSender {
    outgoing: Vec<(WidgetId, Message)>,
}

/// The messages of a list as addressees and contents.
pub open spec fn letters(outgoing: Seq<(WidgetId, Message)>) -> Seq<
    (WidgetIdView, Map<Seq<char>, PropsValueView>),
> {
    Seq::new(outgoing.len(), |i: int| (outgoing[i].0@, outgoing[i].1@))
}

impl View for MessageSender {
    type V = Seq<(WidgetIdView, Map<Seq<char>, PropsValueView>)>;

    closed spec fn view(&self) -> Seq<(WidgetIdView, Map<Seq<char>, PropsValueView>)> {
        letters(self.outgoing@)
    }
}

impl MessageSender {
    /// A sender with nothing on its way.
    pub fn new() -> (sender: MessageSender)
        ensures
            sender@.len() == 0,
    {
        MessageSender { outgoing: Vec::new() }
    }

    /// Sends `message` to the widget `id`.
    pub fn write(&mut self, id: WidgetId, message: Message)
        ensures
            final(self)@ == old(self)@.push((id@, message@)),
    {
        self.outgoing.push((id, message));
    }

    /// Sends the messages of `outgoing`, oldest first.
    pub fn extend(&mut self, outgoing: Vec<(WidgetId, Message)>)
        ensures
            final(self)@ == old(self)@ + letters(outgoing@),
    {
        let mut outgoing = outgoing;
        self.outgoing.append(&mut outgoing);
    }

    /// Everything that was sent, oldest first.
    pub fn unwrap(self) -> (outgoing: Vec<(WidgetId, Message)>)
        ensures
            letters(outgoing@) == self@,
    {
        self.outgoing
    }
}

/// The contents of a list of messages.
pub open spec fn contents(messages: Seq<Message>) -> Seq<Map<Seq<char>, PropsValueView>> {
    Seq::new(messages.len(), |i: int| messages[i]@)
}

/// What a life cycle hook has of messages: those that came for its widget, and
/// a sender for its own.
#[derive(Debug)]
pub struct Messenger {
    sender: MessageSender,
    messages: Messages,
}

impl Messenger {
    /// The messages sent through this messenger so far.
    pub closed spec fn sent(&self) -> Seq<(WidgetIdView, Map<Seq<char>, PropsValueView>)> {
        self.sender@
    }

    /// The contents of the messages that came for the widget, oldest first.
    pub closed spec fn received(&self) -> Seq<Map<Seq<char>, PropsValueView>> {
        contents(self.messages@)
    }

    /// A messenger that holds `messages` and has sent nothing.
    pub fn new(messages: Messages) -> (messenger: Messenger)
        ensures
            messenger.received() == contents(messages@),
            messenger.sent().len() == 0,
    {
        Messenger { sender: MessageSender::new(), messages }
    }

    /// The messages that came for the widget, oldest first.
    pub fn messages(&self) -> (messages: &Messages)
        ensures
            contents(messages@) == self.received(),
    {
        &self.messages
    }

    /// Sends `message` to the widget `id`.
    pub fn write(&mut self, id: WidgetId, message: Message)
        ensures
            final(self).sent() == old(self).sent().push((id@, message@)),
            final(self).received() == old(self).received(),
    {
        self.sender.write(id, message);
    }

    /// Everything that was sent through this messenger, oldest first.
    pub fn unwrap(self) -> (outgoing: Vec<(WidgetId, Message)>)
        ensures
            letters(outgoing@) == self.sent(),
    {
        self.sender.unwrap()
    }
}

} // verus!
