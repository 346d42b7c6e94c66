//! Declarative widget nodes: what the interface should hold, before composites
//! are expanded.

use crate::props::{Props, PropsValueView};
use crate::widget::component::WidgetComponent;
use crate::widget::unit::{
    ItemLayout, ItemModel, LeafKind, MultiKind, SingleKind, UnitModel, WidgetUnitNode,
};
use crate::measure::{lemma_sum_from_bound, sum_from};
use crate::widget::WidgetIdView;
use vstd::prelude::*;
use vstd::std_specs::convert::FromSpecImpl;

verus! {

/// A node of the declarative tree.
#[derive(Debug, Default)]
pub enum WidgetNode<P> {
    /// Nothing.
    #[default]
    Empty,
    /// A composite widget, to be expanded by its processor.
    Component(WidgetComponent<P>),
    /// A layout primitive whose slots hold declarative nodes.
    Unit(WidgetUnitNode<P>),
    /// A group of nodes.
    Tuple(Vec<WidgetNode<P>>),
}

/// What a property bag stands for.
pub type PropsMap = Map<Seq<char>, PropsValueView>;

/// The mathematical shape of a composite widget.
pub struct ComponentModel<P> {
    pub processor: P,
    pub type_tag: Seq<char>,
    pub key: Option<Seq<char>>,
    pub idref: Option<Option<WidgetIdView>>,
    pub props: PropsMap,
    pub shared_props: Option<PropsMap>,
    pub listed_slots: Seq<NodeModel<P>>,
    pub named_slots: Seq<(Seq<char>, NodeModel<P>)>,
}

/// A slot of a declarative container together with its layout.
pub struct NodeItemModel<P> {
    pub slot: NodeModel<P>,
    pub layout: ItemLayout,
}

/// The mathematical shape of a declarative layout primitive.
#[allow(inconsistent_fields)]
pub enum UnitNodeModel<P> {
    Empty,
    Single { kind: SingleKind, id: WidgetIdView, props: Option<PropsMap>, slot: Box<NodeModel<P>> },
    Multi { kind: MultiKind, id: WidgetIdView, props: PropsMap, items: Seq<NodeItemModel<P>> },
    Portal { id: WidgetIdView, owner: WidgetIdView, slot: Box<NodeItemModel<P>> },
    Leaf { kind: LeafKind, id: WidgetIdView, props: PropsMap },
}

/// The mathematical shape of a declarative tree.
pub enum NodeModel<P> {
    Empty,
    Component(ComponentModel<P>),
    Unit(UnitNodeModel<P>),
    Tuple(Seq<NodeModel<P>>),
}

impl<P> NodeModel<P> {
    /// Whether a composite widget is left in the tree where a primitive is
    /// needed. What a group holds is not looked at: a group shows nothing.
    pub open spec fn unresolved(self) -> bool
        decreases self,
    {
        match self {
            NodeModel::Empty => false,
            NodeModel::Component(_) => true,
            NodeModel::Unit(unit) => unit.unresolved(),
            NodeModel::Tuple(_) => false,
        }
    }

    /// The finished tree that a tree without composites stands for. A group
    /// stands for nothing.
    pub open spec fn frozen(self) -> UnitModel
        decreases self,
    {
        match self {
            NodeModel::Unit(unit) => unit.frozen(),
            _ => UnitModel::Empty,
        }
    }

    /// Whether the node shows nothing: it is empty, an empty primitive or an
    /// empty group.
    pub open spec fn is_none(self) -> bool {
        match self {
            NodeModel::Empty => true,
            NodeModel::Component(_) => false,
            NodeModel::Unit(unit) => unit is Empty,
            NodeModel::Tuple(nodes) => nodes.len() == 0,
        }
    }
}

impl<P> UnitNodeModel<P> {
    /// Whether a composite widget is left in a slot of the primitive.
    pub open spec fn unresolved(self) -> bool
        decreases self,
    {
        match self {
            UnitNodeModel::Empty => false,
            UnitNodeModel::Single { slot, .. } => slot.unresolved(),
            UnitNodeModel::Multi { items, .. } => exists|i: int|
                0 <= i < items.len() && (#[trigger] items[i]).slot.unresolved(),
            UnitNodeModel::Portal { slot, .. } => slot.slot.unresolved(),
            UnitNodeModel::Leaf { .. } => false,
        }
    }

    /// The finished primitive that this one stands for.
    pub open spec fn frozen(self) -> UnitModel
        decreases self,
    {
        match self {
            UnitNodeModel::Empty => UnitModel::Empty,
            UnitNodeModel::Single { kind, id, slot, .. } => UnitModel::Single {
                kind,
                id,
                slot: Box::new(slot.frozen()),
            },
            UnitNodeModel::Multi { kind, id, items, .. } => UnitModel::Multi {
                kind,
                id,
                items: Seq::new(
                    items.len(),
                    |i: int|
                        if 0 <= i < items.len() {
                            ItemModel { slot: items[i].slot.frozen(), layout: items[i].layout }
                        } else {
                            arbitrary()
                        },
                ),
            },
            UnitNodeModel::Portal { id, owner, slot } => UnitModel::Portal {
                id,
                owner,
                slot: Box::new(ItemModel { slot: slot.slot.frozen(), layout: slot.layout }),
            },
            UnitNodeModel::Leaf { kind, id, .. } => UnitModel::Leaf { kind, id },
        }
    }
}

impl<P> WidgetNode<P> {
    /// The shape of this tree.
    pub open spec fn model(&self) -> NodeModel<P>
        decreases self,
    {
        match self {
            WidgetNode::Empty => NodeModel::Empty,
            WidgetNode::Component(c) => NodeModel::Component(
                ComponentModel {
                    processor: c.processor,
                    type_tag: c.type_tag@,
                    key: match c.key {
                        Some(key) => Some(key@),
                        None => None,
                    },
                    idref: match c.idref {
                        Some(place) => Some(place@),
                        None => None,
                    },
                    props: c.props@,
                    shared_props: match c.shared_props {
                        Some(props) => Some(props@),
                        None => None,
                    },
                    listed_slots: Seq::new(
                        c.listed_slots@.len(),
                        |i: int|
                            if 0 <= i < c.listed_slots@.len() {
                                c.listed_slots@[i].model()
                            } else {
                                arbitrary()
                            },
                    ),
                    named_slots: Seq::new(
                        c.named_slots@.len(),
                        |i: int|
                            if 0 <= i < c.named_slots@.len() {
                                (c.named_slots@[i].0@, c.named_slots@[i].1.model())
                            } else {
                                arbitrary()
                            },
                    ),
                },
            ),
            WidgetNode::Unit(unit) => NodeModel::Unit(unit.model()),
            WidgetNode::Tuple(nodes) => NodeModel::Tuple(
                Seq::new(
                    nodes@.len(),
                    |i: int|
                        if 0 <= i < nodes@.len() {
                            nodes@[i].model()
                        } else {
                            arbitrary()
                        },
                ),
            ),
        }
    }

    /// Whether the node shows nothing: it is empty, an empty primitive or an
    /// empty group.
    pub fn is_none(&self) -> (none: bool)
        ensures
            none == self.model().is_none(),
    {
        match self {
            WidgetNode::Empty => true,
            WidgetNode::Unit(unit) => unit.is_none(),
            WidgetNode::Tuple(nodes) => nodes.len() == 0,
            WidgetNode::Component(_) => false,
        }
    }

    /// Whether the node shows something.
    pub fn is_some(&self) -> (some: bool)
        ensures
            some == !self.model().is_none(),
    {
        match self {
            WidgetNode::Empty => false,
            WidgetNode::Unit(unit) => unit.is_some(),
            WidgetNode::Tuple(nodes) => nodes.len() != 0,
            WidgetNode::Component(_) => true,
        }
    }

    /// The composite widget, if the node is one.
    pub fn as_component(&self) -> (component: Option<&WidgetComponent<P>>)
        ensures
            match component {
                Some(c) => *self == WidgetNode::Component(*c),
                None => !(self is Component),
            },
    {
        match self {
            WidgetNode::Component(c) => Some(c),
            _ => None,
        }
    }

    /// The layout primitive, if the node is one.
    pub fn as_unit(&self) -> (unit: Option<&WidgetUnitNode<P>>)
        ensures
            match unit {
                Some(u) => *self == WidgetNode::Unit(*u),
                None => !(self is Unit),
            },
    {
        match self {
            WidgetNode::Unit(u) => Some(u),
            _ => None,
        }
    }

    /// The nodes of the group, if the node is one.
    pub fn as_tuple(&self) -> (nodes: Option<&Vec<WidgetNode<P>>>)
        ensures
            match nodes {
                Some(v) => *self == WidgetNode::Tuple(*v),
                None => !(self is Tuple),
            },
    {
        match self {
            WidgetNode::Tuple(v) => Some(v),
            _ => None,
        }
    }

    /// The properties of the composite widget or primitive; nothing, a group
    /// and the boxes without properties have none.
    pub fn props(&self) -> (props: Option<&Props>)
        ensures
            match props {
                Some(p) => Some(p@) == self.model().props(),
                None => self.model().props().is_none(),
            },
    {
        match self {
            WidgetNode::Component(c) => Some(&c.props),
            WidgetNode::Unit(u) => u.props(),
            _ => None,
        }
    }

    /// The properties that a composite widget hands down.
    pub fn shared_props(&self) -> (props: Option<&Props>)
        ensures
            match props {
                Some(p) => Some(p@) == self.model().shared_props(),
                None => self.model().shared_props().is_none(),
            },
    {
        match self {
            WidgetNode::Component(c) => c.shared_props.as_ref(),
            _ => None,
        }
    }

    /// A group of the given nodes.
    pub fn pack_tuple(nodes: Vec<WidgetNode<P>>) -> (node: WidgetNode<P>)
        ensures
            node == WidgetNode::Tuple(nodes),
    {
        WidgetNode::Tuple(nodes)
    }
}

impl<P> NodeModel<P> {
    /// The properties of the composite widget or primitive.
    pub open spec fn props(self) -> Option<PropsMap> {
        match self {
            NodeModel::Component(c) => Some(c.props),
            NodeModel::Unit(unit) => unit.props(),
            _ => None,
        }
    }

    /// The properties that a composite widget hands down.
    pub open spec fn shared_props(self) -> Option<PropsMap> {
        match self {
            NodeModel::Component(c) => c.shared_props,
            _ => None,
        }
    }
}

impl<P> UnitNodeModel<P> {
    /// The properties of the primitive; nothing, area boxes and portals have
    /// none.
    pub open spec fn props(self) -> Option<PropsMap> {
        match self {
            UnitNodeModel::Empty => None,
            UnitNodeModel::Single { props, .. } => props,
            UnitNodeModel::Multi { props, .. } => Some(props),
            UnitNodeModel::Portal { .. } => None,
            UnitNodeModel::Leaf { props, .. } => Some(props),
        }
    }
}

/// The sizes of the slots of `items`.
pub open spec fn node_sizes_of<P>(items: Seq<NodeItemModel<P>>) -> Seq<nat>
    decreases items,
{
    Seq::new(
        items.len(),
        |i: int|
            if 0 <= i < items.len() {
                items[i].slot.size()
            } else {
                0
            },
    )
}

/// The sizes of the trees in `nodes`.
pub open spec fn nodes_sizes<P>(nodes: Seq<NodeModel<P>>) -> Seq<nat>
    decreases nodes,
{
    Seq::new(
        nodes.len(),
        |i: int|
            if 0 <= i < nodes.len() {
                nodes[i].size()
            } else {
                0
            },
    )
}

/// The sizes of the trees in the named slots.
pub open spec fn named_sizes<P>(slots: Seq<(Seq<char>, NodeModel<P>)>) -> Seq<nat>
    decreases slots,
{
    Seq::new(
        slots.len(),
        |i: int|
            if 0 <= i < slots.len() {
                slots[i].1.size()
            } else {
                0
            },
    )
}

impl<P> NodeModel<P> {
    /// The number of nodes in the tree, the children of composite widgets and
    /// the members of groups among them.
    pub open spec fn size(self) -> nat
        decreases self,
    {
        match self {
            NodeModel::Empty => 1,
            NodeModel::Component(c) => 1 + sum_from(nodes_sizes(c.listed_slots), 0) + sum_from(
                named_sizes(c.named_slots),
                0,
            ),
            NodeModel::Unit(unit) => 1 + unit.size(),
            NodeModel::Tuple(nodes) => 1 + sum_from(nodes_sizes(nodes), 0),
        }
    }
}

impl<P> UnitNodeModel<P> {
    /// The number of nodes in the primitive and below it.
    pub open spec fn size(self) -> nat
        decreases self,
    {
        match self {
            UnitNodeModel::Empty => 1,
            UnitNodeModel::Single { slot, .. } => 1 + slot.size(),
            UnitNodeModel::Multi { items, .. } => 1 + sum_from(node_sizes_of(items), 0),
            UnitNodeModel::Portal { slot, .. } => 1 + slot.slot.size(),
            UnitNodeModel::Leaf { .. } => 1,
        }
    }
}

/// The trees of a list as shapes.
pub open spec fn nodes_model<P>(nodes: Seq<WidgetNode<P>>) -> Seq<NodeModel<P>> {
    Seq::new(nodes.len(), |i: int| nodes[i].model())
}

/// The named slots of a list as names and shapes.
pub open spec fn named_model<P>(slots: Seq<(String, WidgetNode<P>)>)
    -> Seq<(Seq<char>, NodeModel<P>)> {
    Seq::new(slots.len(), |i: int| (slots[i].0@, slots[i].1.model()))
}

impl<P: Copy> WidgetNode<P> {
    /// A copy of the tree.
    pub fn duplicate(&self) -> (copy: WidgetNode<P>)
        ensures
            copy.model() == self.model(),
        decreases self.model().size(), 1nat,
    {
        match self {
            WidgetNode::Empty => WidgetNode::Empty,
            WidgetNode::Component(c) => {
                let ghost shape = self.model()->Component_0;
                assert(shape.listed_slots == nodes_model(c.listed_slots@));
                assert(shape.named_slots == named_model(c.named_slots@));
                let listed_slots = duplicate_nodes(&c.listed_slots, Ghost(self.model().size()));
                let named_slots = duplicate_named(&c.named_slots, Ghost(self.model().size()));
                let copy = WidgetNode::Component(
                    WidgetComponent {
                        processor: c.processor,
                        type_tag: c.type_tag.clone(),
                        key: match &c.key {
                            Some(key) => Some(key.clone()),
                            None => None,
                        },
                        idref: match &c.idref {
                            Some(place) => Some(place.clone()),
                            None => None,
                        },
                        props: c.props.clone(),
                        shared_props: match &c.shared_props {
                            Some(props) => Some(props.clone()),
                            None => None,
                        },
                        listed_slots,
                        named_slots,
                    },
                );
                proof {
                    let copied = copy.model()->Component_0;
                    assert(copied.listed_slots =~= shape.listed_slots);
                    assert(copied.named_slots =~= shape.named_slots);
                }
                copy
            },
            WidgetNode::Unit(unit) => WidgetNode::Unit(unit.duplicate()),
            WidgetNode::Tuple(nodes) => {
                assert(self.model()->Tuple_0 == nodes_model(nodes@));
                let copy = WidgetNode::Tuple(duplicate_nodes(nodes, Ghost(self.model().size())));
                assert(copy.model()->Tuple_0 =~= self.model()->Tuple_0);
                copy
            },
        }
    }
}

impl<P: Copy> Clone for WidgetNode<P> {
    fn clone(&self) -> (copy: WidgetNode<P>)
        ensures
            copy.model() == self.model(),
    {
        self.duplicate()
    }
}

/// Copies of the trees of a list.
pub(crate) fn duplicate_nodes<P: Copy>(nodes: &Vec<WidgetNode<P>>, Ghost(bound): Ghost<nat>)
    -> (copy:
    Vec<WidgetNode<P>>)
    requires
        sum_from(nodes_sizes(nodes_model(nodes@)), 0) < bound,
    ensures
        copy@.len() == nodes@.len(),
        forall|i: int| 0 <= i < nodes@.len() ==> (#[trigger] copy@[i]).model() == nodes@[i].model(),
    decreases bound, 0nat,
{
    let mut copy: Vec<WidgetNode<P>> = Vec::new();
    let mut i: usize = 0;
    while i < nodes.len()
        invariant
            i <= nodes.len(),
            copy.len() == i,
            sum_from(nodes_sizes(nodes_model(nodes@)), 0) < bound,
            forall|j: int| 0 <= j < i ==> (#[trigger] copy@[j]).model() == nodes@[j].model(),
        decreases nodes.len() - i,
    {
        proof {
            lemma_sum_from_bound(nodes_sizes(nodes_model(nodes@)), 0, i as int);
        }
        copy.push(nodes[i].duplicate());
        i += 1;
    }
    copy
}

/// Copies of the named slots of a list.
pub(crate) fn duplicate_named<P: Copy>(
    slots: &Vec<(String, WidgetNode<P>)>,
    Ghost(bound): Ghost<nat>,
) -> (copy: Vec<(String, WidgetNode<P>)>)
    requires
        sum_from(named_sizes(named_model(slots@)), 0) < bound,
    ensures
        copy@.len() == slots@.len(),
        forall|i: int|
            0 <= i < slots@.len() ==> (#[trigger] copy@[i]).0@ == slots@[i].0@ && copy@[i].1.model()
                == slots@[i].1.model(),
    decreases bound, 0nat,
{
    let mut copy: Vec<(String, WidgetNode<P>)> = Vec::new();
    let mut i: usize = 0;
    while i < slots.len()
        invariant
            i <= slots.len(),
            copy.len() == i,
            sum_from(named_sizes(named_model(slots@)), 0) < bound,
            forall|j: int|
                0 <= j < i ==> (#[trigger] copy@[j]).0@ == slots@[j].0@ && copy@[j].1.model()
                    == slots@[j].1.model(),
        decreases slots.len() - i,
    {
        proof {
            lemma_sum_from_bound(named_sizes(named_model(slots@)), 0, i as int);
        }
        copy.push((slots[i].0.clone(), slots[i].1.duplicate()));
        i += 1;
    }
    copy
}

impl<P> UnitNodeModel<P> {
    /// Whether the two are the same primitive apart from what is in their
    /// slots: the same kind, identity and properties, and as many items with
    /// the same layouts.
    pub open spec fn same_frame(self, other: UnitNodeModel<P>) -> bool {
        match self {
            UnitNodeModel::Empty => other is Empty,
            UnitNodeModel::Single { kind, id, props, .. } => {
                &&& other is Single
                &&& other->Single_kind == kind
                &&& other->Single_id == id
                &&& other->Single_props == props
            },
            UnitNodeModel::Multi { kind, id, props, items } => {
                &&& other is Multi
                &&& other->Multi_kind == kind
                &&& other->Multi_id == id
                &&& other->Multi_props == props
                &&& other->Multi_items.len() == items.len()
                &&& forall|i: int|
                    0 <= i < items.len() ==> (#[trigger] other->Multi_items[i]).layout
                        == items[i].layout
            },
            UnitNodeModel::Portal { id, owner, slot } => {
                &&& other is Portal
                &&& other->Portal_id == id
                &&& other->Portal_owner == owner
                &&& other->Portal_slot.layout == slot.layout
            },
            UnitNodeModel::Leaf { kind, id, props } => {
                &&& other is Leaf
                &&& other->Leaf_kind == kind
                &&& other->Leaf_id == id
                &&& other->Leaf_props == props
            },
        }
    }
}

impl<P> UnitNodeModel<P> {
    /// The primitive with `props` in the place of its properties; one that has
    /// no properties stays as it is.
    pub open spec fn with_props(self, props: PropsMap) -> UnitNodeModel<P> {
        match self {
            UnitNodeModel::Single { kind, id, props: Some(_), slot } => UnitNodeModel::Single {
                kind,
                id,
                props: Some(props),
                slot,
            },
            UnitNodeModel::Multi { kind, id, items, .. } => UnitNodeModel::Multi {
                kind,
                id,
                props,
                items,
            },
            UnitNodeModel::Leaf { kind, id, .. } => UnitNodeModel::Leaf { kind, id, props },
            _ => self,
        }
    }
}

impl<P> NodeModel<P> {
    /// The node with `props` in the place of its properties; one that has no
    /// properties stays as it is.
    pub open spec fn with_props(self, props: PropsMap) -> NodeModel<P> {
        match self {
            NodeModel::Component(c) => NodeModel::Component(ComponentModel { props, ..c }),
            NodeModel::Unit(unit) => NodeModel::Unit(unit.with_props(props)),
            _ => self,
        }
    }

    /// The node with `props` in the place of the properties that it hands
    /// down; only a composite widget hands any down.
    pub open spec fn with_shared_props(self, props: PropsMap) -> NodeModel<P> {
        match self {
            NodeModel::Component(c) => NodeModel::Component(
                ComponentModel { shared_props: Some(props), ..c },
            ),
            _ => self,
        }
    }
}

impl<P> WidgetNode<P> {
    /// The properties of the node as they are held.
    pub open spec fn spec_props(&self) -> Option<Props> {
        match self {
            WidgetNode::Component(c) => Some(c.props),
            WidgetNode::Unit(unit) => unit.spec_props(),
            _ => None,
        }
    }

    /// Puts what `f` makes of the properties of the node in their place. A node
    /// without properties stays as it is, and `f` is not called.
    pub fn remap_props<F: FnOnce(Props) -> Props>(&mut self, f: F)
        requires
            old(self).spec_props() matches Some(props) ==> call_requires(f, (props,)),
        ensures
            match old(self).spec_props() {
                Some(props) => final(self).spec_props() matches Some(made) && call_ensures(
                    f,
                    (props,),
                    made,
                ) && final(self).model() == old(self).model().with_props(made@),
                None => *final(self) == *old(self),
            },
    {
        let mut node = WidgetNode::Empty;
        std::mem::swap(self, &mut node);
        *self = match node {
            WidgetNode::Component(c) => {
                let WidgetComponent {
                    processor,
                    type_tag,
                    key,
                    idref,
                    props,
                    shared_props,
                    listed_slots,
                    named_slots,
                } = c;
                let made = WidgetNode::Component(
                    WidgetComponent {
                        processor,
                        type_tag,
                        key,
                        idref,
                        props: f(props),
                        shared_props,
                        listed_slots,
                        named_slots,
                    },
                );
                made
            },
            WidgetNode::Unit(unit) => {
                let mut unit = unit;
                unit.remap_props(f);
                WidgetNode::Unit(unit)
            },
            other => other,
        };
    }

    /// Puts what `f` makes of the properties that the node hands down in their
    /// place. Only a composite widget that hands some down is changed.
    pub fn remap_shared_props<F: FnOnce(Props) -> Props>(&mut self, f: F)
        requires
            *old(self) matches WidgetNode::Component(c) ==> (c.shared_props matches Some(props)
                ==> call_requires(f, (props,))),
        ensures
            match *old(self) {
                WidgetNode::Component(c) => match c.shared_props {
                    Some(props) => *final(self) matches WidgetNode::Component(d)
                        && d.shared_props matches Some(made) && call_ensures(f, (props,), made)
                        && final(self).model() == old(self).model().with_shared_props(made@),
                    None => *final(self) == *old(self),
                },
                _ => *final(self) == *old(self),
            },
    {
        let mut node = WidgetNode::Empty;
        std::mem::swap(self, &mut node);
        *self = match node {
            WidgetNode::Component(c) => {
                let WidgetComponent {
                    processor,
                    type_tag,
                    key,
                    idref,
                    props,
                    shared_props,
                    listed_slots,
                    named_slots,
                } = c;
                match shared_props {
                    Some(shared) => {
                        let made = WidgetNode::Component(
                            WidgetComponent {
                                processor,
                                type_tag,
                                key,
                                idref,
                                props,
                                shared_props: Some(f(shared)),
                                listed_slots,
                                named_slots,
                            },
                        );
                        made
                    },
                    None => WidgetNode::Component(
                        WidgetComponent {
                            processor,
                            type_tag,
                            key,
                            idref,
                            props,
                            shared_props: None,
                            listed_slots,
                            named_slots,
                        },
                    ),
                }
            },
            other => other,
        };
    }

    /// The first `count` nodes of a group, with nothing for every node that
    /// the group lacks. Anything but a group gives `count` times nothing.
    pub fn unpack_tuple(self, count: usize) -> (nodes: Vec<WidgetNode<P>>)
        ensures
            nodes@.len() == count,
            forall|i: int|
                0 <= i < count ==> #[trigger] nodes@[i] == (match self {
                    WidgetNode::Tuple(group) if i < group@.len() => group@[i],
                    _ => WidgetNode::Empty,
                }),
    {
        let mut given = match self {
            WidgetNode::Tuple(group) => group,
            _ => Vec::new(),
        };
        let ghost group = given@;
        given.truncate(count);
        let mut nodes = given;
        while nodes.len() < count
            invariant
                nodes@.len() <= count,
                forall|i: int|
                    0 <= i < nodes@.len() ==> #[trigger] nodes@[i] == (if i < group.len() {
                        group[i]
                    } else {
                        WidgetNode::Empty
                    }),
                group.len() <= nodes@.len() || nodes@.len() == count,
            decreases count - nodes.len(),
        {
            nodes.push(WidgetNode::Empty);
        }
        nodes
    }
}

impl<P> WidgetNode<P> {
    /// The properties of the node, to change them in place.
    pub fn props_mut(&mut self) -> (props: Option<&mut Props>)
        ensures
            match props {
                Some(props) => {
                    &&& old(self).spec_props() == Some(*props)
                    &&& final(self).spec_props() == Some(*final(props))
                    &&& final(self).model() == old(self).model().with_props((*final(props))@)
                },
                None => old(self).spec_props().is_none() && *final(self) == *old(self),
            },
    {
        match self {
            WidgetNode::Component(c) => Some(&mut c.props),
            WidgetNode::Unit(unit) => unit.props_mut(),
            _ => None,
        }
    }

    /// The properties that a composite widget hands down, to change them in
    /// place. A widget that hands none down gets an empty bag first.
    pub fn shared_props_mut(&mut self) -> (props: Option<&mut Props>)
        ensures
            match props {
                Some(props) => {
                    &&& *old(self) is Component
                    &&& props@ == (match old(self)->Component_0.shared_props {
                        Some(shared) => shared@,
                        None => Props::spec_empty(),
                    })
                    &&& *final(self) is Component
                    &&& final(self)->Component_0.shared_props == Some(*final(props))
                    &&& final(self).model() == old(self).model().with_shared_props(
                        (*final(props))@,
                    )
                },
                None => !(*old(self) is Component) && *final(self) == *old(self),
            },
    {
        match self {
            WidgetNode::Component(c) => {
                if c.shared_props.is_none() {
                    c.shared_props = Some(Props::new());
                }
                c.shared_props.as_mut()
            },
            _ => None,
        }
    }
}

impl<P> From<WidgetComponent<P>> for WidgetNode<P> {
    fn from(component: WidgetComponent<P>) -> (node: WidgetNode<P>) {
        WidgetNode::Component(component)
    }
}

impl<P> FromSpecImpl<WidgetComponent<P>> for WidgetNode<P> {
    open spec fn obeys_from_spec() -> bool {
        true
    }

    open spec fn from_spec(component: WidgetComponent<P>) -> WidgetNode<P> {
        WidgetNode::Component(component)
    }
}

impl<P> From<WidgetUnitNode<P>> for WidgetNode<P> {
    fn from(unit: WidgetUnitNode<P>) -> (node: WidgetNode<P>) {
        WidgetNode::Unit(unit)
    }
}

impl<P> FromSpecImpl<WidgetUnitNode<P>> for WidgetNode<P> {
    open spec fn obeys_from_spec() -> bool {
        true
    }

    open spec fn from_spec(unit: WidgetUnitNode<P>) -> WidgetNode<P> {
        WidgetNode::Unit(unit)
    }
}

} // verus!
