//! What a processor and its life cycle hooks are handed.

use crate::animator::{Animator, AnimatorStates};
use crate::messenger::{MessageSender, Messenger};
use crate::props::Props;
use crate::signals::SignalSender;
use crate::state::State;
use crate::widget::node::WidgetNode;
use crate::widget::{WidgetId, WidgetLifeCycle, WidgetRef};
use vstd::prelude::*;

verus! {

/// What a processor is handed to expand a composite widget. The processor may
/// change the properties, leave a new state, register hooks and take the
/// children; the reconciler reads all of that back.
#[derive(Debug)]
pub struct WidgetContext<P> {
    /// The identity of the widget.
    pub id: WidgetId,
    /// The place where the identity was written, if the widget has one.
    pub idref: Option<WidgetRef>,
    /// The key of the widget: its own, or the one its position gave it.
    pub key: String,
    /// The widget's own properties.
    pub props: Props,
    /// The properties handed down to the widget, its own shared properties
    /// written over those from above.
    pub shared_props: Props,
    /// The state of the widget.
    pub state: State,
    /// The animations of the widget as they are.
    pub animator: AnimatorStates,
    /// Where hooks are registered.
    pub life_cycle: WidgetLifeCycle<P>,
    /// The children given by name.
    pub named_slots: Vec<(String, WidgetNode<P>)>,
    /// The children given in order.
    pub listed_slots: Vec<WidgetNode<P>>,
}

/// What a hook is handed when its widget has been mounted or has changed.
#[derive(Debug)]
pub struct WidgetMountOrChangeContext {
    /// The identity of the widget.
    pub id: WidgetId,
    /// The widget's own properties.
    pub props: Props,
    /// The properties handed down to the widget.
    pub shared_props: Props,
    /// The state of the widget.
    pub state: State,
    /// The messages that came for the widget, and a way to send some.
    pub messenger: Messenger,
    /// A way to tell the host something.
    pub signals: SignalSender,
    /// The animations of the widget, and a way to change them.
    pub animator: Animator,
}

/// What a hook is handed when its widget has left the tree.
#[derive(Debug)]
pub struct WidgetUnmountContext {
    /// The identity of the widget.
    pub id: WidgetId,
    /// The state that the widget had last.
    pub state: Props,
    /// A way to send messages.
    pub messenger: MessageSender,
    /// A way to tell the host something.
    pub signals: SignalSender,
}

} // verus!
