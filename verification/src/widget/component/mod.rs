//! Composite widgets: nodes that a processor expands into other nodes.

pub mod containers;

use crate::props::Props;
use crate::widget::node::{NodeModel, WidgetNode};
use crate::widget::WidgetRef;
use vstd::prelude::*;

verus! {

/// A composite widget in a declarative tree.
#[derive(Debug)]
pub struct WidgetComponent<P> {
    /// What expands the widget.
    pub processor: P,
    /// The name of the widget's type, the first part of its identity.
    pub type_tag: String,
    /// The key that tells the widget from its siblings; its position does when
    /// there is none.
    pub key: Option<String>,
    /// Where the widget's identity is written when it is expanded.
    pub idref: Option<WidgetRef>,
    /// The widget's own properties.
    pub props: Props,
    /// Properties handed down to every widget below this one.
    pub shared_props: Option<Props>,
    /// Children given in order.
    pub listed_slots: Vec<WidgetNode<P>>,
    /// Children given by name.
    pub named_slots: Vec<(String, WidgetNode<P>)>,
}

impl<P> WidgetComponent<P> {
    /// A widget of type `type_tag` expanded by `processor`, without key,
    /// properties or children.
    pub fn new(processor: P, type_tag: String) -> (component: WidgetComponent<P>)
        ensures
            component.processor == processor,
            component.type_tag == type_tag,
            component.key.is_none(),
            component.idref.is_none(),
            component.props@ == Props::spec_empty(),
            component.shared_props.is_none(),
            component.listed_slots@.len() == 0,
            component.named_slots@.len() == 0,
    {
        WidgetComponent {
            processor,
            type_tag,
            key: None,
            idref: None,
            props: Props::new(),
            shared_props: None,
            listed_slots: Vec::new(),
            named_slots: Vec::new(),
        }
    }
}

/// The node in the first slot called `name`, and nothing if there is none.
pub open spec fn named_slot<P>(slots: Seq<(Seq<char>, NodeModel<P>)>, name: Seq<char>, from: int)
    -> NodeModel<
    P,
>
    decreases slots.len() - from,
{
    if from < 0 || from >= slots.len() {
        NodeModel::Empty
    } else if slots[from].0 == name {
        slots[from].1
    } else {
        named_slot(slots, name, from + 1)
    }
}

/// The index of the first slot called `name`.
pub open spec fn named_slot_index<P>(
    slots: Seq<(Seq<char>, NodeModel<P>)>,
    name: Seq<char>,
    from: int,
) -> Option<int>
    decreases slots.len() - from,
{
    if from < 0 || from >= slots.len() {
        None
    } else if slots[from].0 == name {
        Some(from)
    } else {
        named_slot_index(slots, name, from + 1)
    }
}

/// Takes the node out of the first slot called `name`; the slot leaves the
/// list. There is nothing to take if no slot has that name.
pub fn take_named_slot<P>(slots: &mut Vec<(String, WidgetNode<P>)>, name: &str)
    -> (node: WidgetNode<
    P,
>)
    ensures
        node.model() == named_slot(crate::widget::node::named_model(old(slots)@), name@, 0),
        match named_slot_index(crate::widget::node::named_model(old(slots)@), name@, 0) {
            Some(index) => 0 <= index < old(slots)@.len() && final(slots)@ == old(slots)@.remove(
                index,
            ),
            None => final(slots)@ == old(slots)@,
        },
{
    let ghost shapes = crate::widget::node::named_model(slots@);
    let mut i: usize = 0;
    while i < slots.len()
        invariant
            i <= slots.len(),
            slots@ == old(slots)@,
            shapes == crate::widget::node::named_model(slots@),
            named_slot(shapes, name@, 0) == named_slot(shapes, name@, i as int),
            named_slot_index(shapes, name@, 0) == named_slot_index(shapes, name@, i as int),
        decreases slots.len() - i,
    {
        if crate::props::str_equal(slots[i].0.as_str(), name) {
            let entry = slots.remove(i);
            return entry.1;
        }
        i += 1;
    }
    WidgetNode::Empty
}

} // verus!
