//! Layout primitives: the finished tree that layout and rendering read, and the
//! declarative boxes it is made from.

pub mod area;
pub mod content;
pub mod flex;
pub mod grid;
pub mod image;
pub mod portal;
pub mod size;
pub mod text;

use crate::props::Props;
use crate::measure::{lemma_sum_from_bound, sum_from};
use crate::teleport::sizes_of;
use crate::widget::node::{node_sizes_of, NodeItemModel, NodeModel, UnitNodeModel, WidgetNode};
use crate::widget::unit::area::{AreaBox, AreaBoxNode};
use crate::widget::unit::content::{
    ContentBox, ContentBoxItem, ContentBoxItemLayout, ContentBoxItemNode, ContentBoxNode,
};
use crate::widget::unit::flex::{
    FlexBox, FlexBoxDirection, FlexBoxItem, FlexBoxItemLayout, FlexBoxItemNode, FlexBoxNode,
};
use crate::widget::unit::grid::{
    GridBox, GridBoxItem, GridBoxItemLayout, GridBoxItemNode, GridBoxNode,
};
use crate::widget::unit::image::{ImageBox, ImageBoxNode};
use crate::widget::unit::portal::{PortalBox, PortalBoxNode, PortalBoxSlot, PortalBoxSlotNode};
use crate::widget::unit::size::{SizeBox, SizeBoxNode, SizeBoxSizeValue};
use crate::widget::unit::text::{TextBox, TextBoxNode};
use crate::widget::utils::Rect;
use crate::widget::{WidgetId, WidgetIdView};
use crate::Scalar;
use vstd::prelude::*;
use vstd::std_specs::convert::FromSpecImpl;

verus! {

/// The layout that comes with a slot, if any.
pub enum ItemLayout {
    Bare,
    Content(ContentBoxItemLayout),
    Flex(FlexBoxItemLayout),
    Grid(GridBoxItemLayout),
}

/// A slot of a container together with its layout.
pub struct ItemModel {
    pub slot: UnitModel,
    pub layout: ItemLayout,
}

/// What tells the containers with one slot apart.
pub enum SingleKind {
    Area,
    Size { width: SizeBoxSizeValue, height: SizeBoxSizeValue, margin: Rect },
}

/// What tells the containers with a list of items apart.
pub enum MultiKind {
    Content { clipping: bool },
    Flex { direction: FlexBoxDirection, separation: Scalar, wrap: bool },
    Grid { cols: usize, rows: usize },
}

/// What tells the primitives without a slot apart.
pub enum LeafKind {
    Image { content_keep_aspect_ratio: bool },
    Text { text: Seq<char> },
}

/// The mathematical shape of a finished primitive tree: nothing, a container
/// with one slot, a container with a list of items, a portal, or a leaf.
#[allow(inconsistent_fields)]
pub enum UnitModel {
    Empty,
    Single { kind: SingleKind, id: WidgetIdView, slot: Box<UnitModel> },
    Multi { kind: MultiKind, id: WidgetIdView, items: Seq<ItemModel> },
    Portal { id: WidgetIdView, owner: WidgetIdView, slot: Box<ItemModel> },
    Leaf { kind: LeafKind, id: WidgetIdView },
}

/// A finished layout primitive.
#[derive(Debug, Default)]
pub enum WidgetUnit {
    #[default]
    Empty,
    AreaBox(AreaBox),
    PortalBox(PortalBox),
    ContentBox(ContentBox),
    FlexBox(FlexBox),
    GridBox(GridBox),
    SizeBox(SizeBox),
    ImageBox(ImageBox),
    TextBox(TextBox),
}

impl View for PortalBoxSlot {
    type V = ItemModel;

    open spec fn view(&self) -> ItemModel {
        self.model()
    }
}

impl PortalBoxSlot {
    /// The primitive that the portal carries, without its layout.
    pub fn slot(&self) -> (slot: &WidgetUnit)
        ensures
            slot.model() == self.model().slot,
    {
        match self {
            PortalBoxSlot::Slot(slot) => slot,
            PortalBoxSlot::ContentItem(item) => &item.slot,
            PortalBoxSlot::FlexItem(item) => &item.slot,
            PortalBoxSlot::GridItem(item) => &item.slot,
        }
    }

    /// The content of the portal as the shape of its slot and its layout.
    pub open spec fn model(&self) -> ItemModel
        decreases self,
    {
        match self {
            PortalBoxSlot::Slot(slot) => ItemModel { slot: slot.model(), layout: ItemLayout::Bare },
            PortalBoxSlot::ContentItem(item) => ItemModel {
                slot: item.slot.model(),
                layout: ItemLayout::Content(item.layout),
            },
            PortalBoxSlot::FlexItem(item) => ItemModel {
                slot: item.slot.model(),
                layout: ItemLayout::Flex(item.layout),
            },
            PortalBoxSlot::GridItem(item) => ItemModel {
                slot: item.slot.model(),
                layout: ItemLayout::Grid(item.layout),
            },
        }
    }
}

impl View for WidgetUnit {
    type V = UnitModel;

    open spec fn view(&self) -> UnitModel {
        self.model()
    }
}

impl WidgetUnit {
    /// Whether this is nothing.
    pub fn is_none(&self) -> (none: bool)
        ensures
            none == (self@ is Empty),
    {
        matches!(self, WidgetUnit::Empty)
    }

    /// Whether this is a primitive.
    pub fn is_some(&self) -> (some: bool)
        ensures
            some == !(self@ is Empty),
    {
        !matches!(self, WidgetUnit::Empty)
    }

    /// The identity of the primitive; nothing has none.
    pub fn id(&self) -> (id: Option<&WidgetId>)
        ensures
            match id {
                Some(id) => self@.id() == Some(id@),
                None => self@.id().is_none(),
            },
    {
        match self {
            WidgetUnit::Empty => None,
            WidgetUnit::AreaBox(b) => Some(&b.id),
            WidgetUnit::PortalBox(b) => Some(&b.id),
            WidgetUnit::ContentBox(b) => Some(&b.id),
            WidgetUnit::FlexBox(b) => Some(&b.id),
            WidgetUnit::GridBox(b) => Some(&b.id),
            WidgetUnit::SizeBox(b) => Some(&b.id),
            WidgetUnit::ImageBox(b) => Some(&b.id),
            WidgetUnit::TextBox(b) => Some(&b.id),
        }
    }

    /// The shape of this tree.
    pub open spec fn model(&self) -> UnitModel
        decreases self,
    {
        match self {
            WidgetUnit::Empty => UnitModel::Empty,
            WidgetUnit::AreaBox(b) => UnitModel::Single {
                kind: SingleKind::Area,
                id: b.id@,
                slot: Box::new(b.slot.model()),
            },
            WidgetUnit::PortalBox(b) => UnitModel::Portal {
                id: b.id@,
                owner: b.owner@,
                slot: Box::new(b.slot.model()),
            },
            WidgetUnit::ContentBox(b) => UnitModel::Multi {
                kind: MultiKind::Content { clipping: b.clipping },
                id: b.id@,
                items: Seq::new(
                    b.items@.len(),
                    |i: int|
                        if 0 <= i < b.items@.len() {
                            ItemModel {
                                slot: b.items@[i].slot.model(),
                                layout: ItemLayout::Content(b.items@[i].layout),
                            }
                        } else {
                            arbitrary()
                        },
                ),
            },
            WidgetUnit::FlexBox(b) => UnitModel::Multi {
                kind: MultiKind::Flex {
                    direction: b.direction,
                    separation: b.separation,
                    wrap: b.wrap,
                },
                id: b.id@,
                items: Seq::new(
                    b.items@.len(),
                    |i: int|
                        if 0 <= i < b.items@.len() {
                            ItemModel {
                                slot: b.items@[i].slot.model(),
                                layout: ItemLayout::Flex(b.items@[i].layout),
                            }
                        } else {
                            arbitrary()
                        },
                ),
            },
            WidgetUnit::GridBox(b) => UnitModel::Multi {
                kind: MultiKind::Grid { cols: b.cols, rows: b.rows },
                id: b.id@,
                items: Seq::new(
                    b.items@.len(),
                    |i: int|
                        if 0 <= i < b.items@.len() {
                            ItemModel {
                                slot: b.items@[i].slot.model(),
                                layout: ItemLayout::Grid(b.items@[i].layout),
                            }
                        } else {
                            arbitrary()
                        },
                ),
            },
            WidgetUnit::SizeBox(b) => UnitModel::Single {
                kind: SingleKind::Size { width: b.width, height: b.height, margin: b.margin },
                id: b.id@,
                slot: Box::new(b.slot.model()),
            },
            WidgetUnit::ImageBox(b) => UnitModel::Leaf {
                kind: LeafKind::Image { content_keep_aspect_ratio: b.content_keep_aspect_ratio },
                id: b.id@,
            },
            WidgetUnit::TextBox(b) => UnitModel::Leaf {
                kind: LeafKind::Text { text: b.text@ },
                id: b.id@,
            },
        }
    }
}

/// An item of a container with a list of items: a slot and a layout.
pub trait UnitItem: Sized {
    /// The item as the shape of its slot and its layout.
    spec fn model(&self) -> ItemModel;

    /// The slot of the item.
    fn slot(&self) -> (slot: &WidgetUnit)
        ensures
            slot.model() == self.model().slot,
    ;

    /// Takes the slot out of the item and leaves nothing in its place.
    fn take_slot(&mut self) -> (slot: WidgetUnit)
        ensures
            slot.model() == old(self).model().slot,
            final(self).model() == (ItemModel {
                slot: UnitModel::Empty,
                layout: old(self).model().layout,
            }),
    ;

    /// Puts `slot` into the item, in place of what was there.
    fn put_slot(&mut self, slot: WidgetUnit)
        ensures
            final(self).model() == (ItemModel {
                slot: slot.model(),
                layout: old(self).model().layout,
            }),
    ;
}

impl UnitItem for ContentBoxItem {
    open spec fn model(&self) -> ItemModel {
        ItemModel { slot: self.slot.model(), layout: ItemLayout::Content(self.layout) }
    }

    fn slot(&self) -> (slot: &WidgetUnit) {
        &self.slot
    }

    fn take_slot(&mut self) -> (slot: WidgetUnit) {
        let mut slot = WidgetUnit::Empty;
        std::mem::swap(&mut self.slot, &mut slot);
        slot
    }

    fn put_slot(&mut self, slot: WidgetUnit) {
        self.slot = slot;
    }
}

impl UnitItem for FlexBoxItem {
    open spec fn model(&self) -> ItemModel {
        ItemModel { slot: self.slot.model(), layout: ItemLayout::Flex(self.layout) }
    }

    fn slot(&self) -> (slot: &WidgetUnit) {
        &self.slot
    }

    fn take_slot(&mut self) -> (slot: WidgetUnit) {
        let mut slot = WidgetUnit::Empty;
        std::mem::swap(&mut self.slot, &mut slot);
        slot
    }

    fn put_slot(&mut self, slot: WidgetUnit) {
        self.slot = slot;
    }
}

impl UnitItem for GridBoxItem {
    open spec fn model(&self) -> ItemModel {
        ItemModel { slot: self.slot.model(), layout: ItemLayout::Grid(self.layout) }
    }

    fn slot(&self) -> (slot: &WidgetUnit) {
        &self.slot
    }

    fn take_slot(&mut self) -> (slot: WidgetUnit) {
        let mut slot = WidgetUnit::Empty;
        std::mem::swap(&mut self.slot, &mut slot);
        slot
    }

    fn put_slot(&mut self, slot: WidgetUnit) {
        self.slot = slot;
    }
}

/// The items of a list, each as the shape of its slot and its layout.
pub open spec fn items_model<I: UnitItem>(items: Seq<I>) -> Seq<ItemModel> {
    Seq::new(items.len(), |i: int| items[i].model())
}

/// A layout primitive of the declarative tree: its slots hold declarative
/// nodes.
#[derive(Debug, Default)]
pub enum WidgetUnitNode<P> {
    #[default]
    Empty,
    AreaBox(AreaBoxNode<P>),
    PortalBox(PortalBoxNode<P>),
    ContentBox(ContentBoxNode<P>),
    FlexBox(FlexBoxNode<P>),
    GridBox(GridBoxNode<P>),
    SizeBox(SizeBoxNode<P>),
    ImageBox(ImageBoxNode),
    TextBox(TextBoxNode),
}

impl<P> PortalBoxSlotNode<P> {
    /// The content of the portal as the shape of its slot and its layout.
    pub open spec fn model(&self) -> NodeItemModel<P>
        decreases self,
    {
        match self {
            PortalBoxSlotNode::Slot(slot) => NodeItemModel {
                slot: slot.model(),
                layout: ItemLayout::Bare,
            },
            PortalBoxSlotNode::ContentItem(item) => NodeItemModel {
                slot: item.slot.model(),
                layout: ItemLayout::Content(item.layout),
            },
            PortalBoxSlotNode::FlexItem(item) => NodeItemModel {
                slot: item.slot.model(),
                layout: ItemLayout::Flex(item.layout),
            },
            PortalBoxSlotNode::GridItem(item) => NodeItemModel {
                slot: item.slot.model(),
                layout: ItemLayout::Grid(item.layout),
            },
        }
    }
}

impl<P> WidgetUnitNode<P> {
    /// The shape of this tree.
    pub open spec fn model(&self) -> UnitNodeModel<P>
        decreases self,
    {
        match self {
            WidgetUnitNode::Empty => UnitNodeModel::Empty,
            WidgetUnitNode::AreaBox(b) => UnitNodeModel::Single {
                kind: SingleKind::Area,
                id: b.id@,
                props: None,
                slot: Box::new(b.slot.model()),
            },
            WidgetUnitNode::PortalBox(b) => UnitNodeModel::Portal {
                id: b.id@,
                owner: b.owner@,
                slot: Box::new(b.slot.model()),
            },
            WidgetUnitNode::ContentBox(b) => UnitNodeModel::Multi {
                kind: MultiKind::Content { clipping: b.clipping },
                id: b.id@,
                props: b.props@,
                items: Seq::new(
                    b.items@.len(),
                    |i: int|
                        if 0 <= i < b.items@.len() {
                            NodeItemModel {
                                slot: b.items@[i].slot.model(),
                                layout: ItemLayout::Content(b.items@[i].layout),
                            }
                        } else {
                            arbitrary()
                        },
                ),
            },
            WidgetUnitNode::FlexBox(b) => UnitNodeModel::Multi {
                kind: MultiKind::Flex {
                    direction: b.direction,
                    separation: b.separation,
                    wrap: b.wrap,
                },
                id: b.id@,
                props: b.props@,
                items: Seq::new(
                    b.items@.len(),
                    |i: int|
                        if 0 <= i < b.items@.len() {
                            NodeItemModel {
                                slot: b.items@[i].slot.model(),
                                layout: ItemLayout::Flex(b.items@[i].layout),
                            }
                        } else {
                            arbitrary()
                        },
                ),
            },
            WidgetUnitNode::GridBox(b) => UnitNodeModel::Multi {
                kind: MultiKind::Grid { cols: b.cols, rows: b.rows },
                id: b.id@,
                props: b.props@,
                items: Seq::new(
                    b.items@.len(),
                    |i: int|
                        if 0 <= i < b.items@.len() {
                            NodeItemModel {
                                slot: b.items@[i].slot.model(),
                                layout: ItemLayout::Grid(b.items@[i].layout),
                            }
                        } else {
                            arbitrary()
                        },
                ),
            },
            WidgetUnitNode::SizeBox(b) => UnitNodeModel::Single {
                kind: SingleKind::Size { width: b.width, height: b.height, margin: b.margin },
                id: b.id@,
                props: Some(b.props@),
                slot: Box::new(b.slot.model()),
            },
            WidgetUnitNode::ImageBox(b) => UnitNodeModel::Leaf {
                kind: LeafKind::Image { content_keep_aspect_ratio: b.content_keep_aspect_ratio },
                id: b.id@,
                props: b.props@,
            },
            WidgetUnitNode::TextBox(b) => UnitNodeModel::Leaf {
                kind: LeafKind::Text { text: b.text@ },
                id: b.id@,
                props: b.props@,
            },
        }
    }

    /// Whether this is nothing.
    pub fn is_none(&self) -> (none: bool)
        ensures
            none == (self.model() is Empty),
    {
        matches!(self, WidgetUnitNode::Empty)
    }

    /// Whether this is a primitive.
    pub fn is_some(&self) -> (some: bool)
        ensures
            some == !(self.model() is Empty),
    {
        !matches!(self, WidgetUnitNode::Empty)
    }

    /// The properties of the primitive; nothing, area boxes and portals have
    /// none.
    pub fn props(&self) -> (props: Option<&Props>)
        ensures
            match props {
                Some(p) => Some(p@) == self.model().props(),
                None => self.model().props().is_none(),
            },
    {
        match self {
            WidgetUnitNode::ContentBox(b) => Some(&b.props),
            WidgetUnitNode::FlexBox(b) => Some(&b.props),
            WidgetUnitNode::GridBox(b) => Some(&b.props),
            WidgetUnitNode::SizeBox(b) => Some(&b.props),
            WidgetUnitNode::ImageBox(b) => Some(&b.props),
            WidgetUnitNode::TextBox(b) => Some(&b.props),
            _ => None,
        }
    }
}

/// An item of a declarative container with a list of items.
pub trait NodeItem<P>: Sized {
    /// The finished item that this one becomes.
    type Frozen: UnitItem;

    /// The item as the shape of its slot and its layout.
    spec fn model(&self) -> NodeItemModel<P>;

    /// Takes the slot out of the item and leaves nothing in its place.
    fn take_slot(&mut self) -> (slot: WidgetNode<P>)
        ensures
            slot.model() == old(self).model().slot,
            final(self).model() == (NodeItemModel::<P> {
                slot: NodeModel::Empty,
                layout: old(self).model().layout,
            }),
    ;

    /// Puts `slot` into the item, in place of what was there.
    fn put_slot(&mut self, slot: WidgetNode<P>)
        ensures
            final(self).model() == (NodeItemModel::<P> {
                slot: slot.model(),
                layout: old(self).model().layout,
            }),
    ;

    /// The finished item with this item's layout and the given slot.
    fn freeze(&self, slot: WidgetUnit) -> (item: Self::Frozen)
        ensures
            item.model() == (ItemModel { slot: slot.model(), layout: self.model().layout }),
    ;

    /// The slot of the item.
    fn slot(&self) -> (slot: &WidgetNode<P>)
        ensures
            slot.model() == self.model().slot,
    ;

    /// An item with this item's layout and the given slot.
    fn with_slot(&self, slot: WidgetNode<P>) -> (item: Self)
        ensures
            item.model() == (NodeItemModel::<P> { slot: slot.model(), layout: self.model().layout }),
    ;
}

impl<P> NodeItem<P> for ContentBoxItemNode<P> {
    type Frozen = ContentBoxItem;

    open spec fn model(&self) -> NodeItemModel<P> {
        NodeItemModel { slot: self.slot.model(), layout: ItemLayout::Content(self.layout) }
    }

    fn take_slot(&mut self) -> (slot: WidgetNode<P>) {
        let mut slot = WidgetNode::Empty;
        std::mem::swap(&mut self.slot, &mut slot);
        slot
    }

    fn put_slot(&mut self, slot: WidgetNode<P>) {
        self.slot = slot;
    }

    fn freeze(&self, slot: WidgetUnit) -> (item: ContentBoxItem) {
        ContentBoxItem { slot, layout: self.layout }
    }

    fn slot(&self) -> (slot: &WidgetNode<P>) {
        &self.slot
    }

    fn with_slot(&self, slot: WidgetNode<P>) -> (item: ContentBoxItemNode<P>) {
        ContentBoxItemNode { slot, layout: self.layout }
    }
}

impl<P> NodeItem<P> for FlexBoxItemNode<P> {
    type Frozen = FlexBoxItem;

    open spec fn model(&self) -> NodeItemModel<P> {
        NodeItemModel { slot: self.slot.model(), layout: ItemLayout::Flex(self.layout) }
    }

    fn take_slot(&mut self) -> (slot: WidgetNode<P>) {
        let mut slot = WidgetNode::Empty;
        std::mem::swap(&mut self.slot, &mut slot);
        slot
    }

    fn put_slot(&mut self, slot: WidgetNode<P>) {
        self.slot = slot;
    }

    fn freeze(&self, slot: WidgetUnit) -> (item: FlexBoxItem) {
        FlexBoxItem { slot, layout: self.layout }
    }

    fn slot(&self) -> (slot: &WidgetNode<P>) {
        &self.slot
    }

    fn with_slot(&self, slot: WidgetNode<P>) -> (item: FlexBoxItemNode<P>) {
        FlexBoxItemNode { slot, layout: self.layout }
    }
}

impl<P> NodeItem<P> for GridBoxItemNode<P> {
    type Frozen = GridBoxItem;

    open spec fn model(&self) -> NodeItemModel<P> {
        NodeItemModel { slot: self.slot.model(), layout: ItemLayout::Grid(self.layout) }
    }

    fn take_slot(&mut self) -> (slot: WidgetNode<P>) {
        let mut slot = WidgetNode::Empty;
        std::mem::swap(&mut self.slot, &mut slot);
        slot
    }

    fn put_slot(&mut self, slot: WidgetNode<P>) {
        self.slot = slot;
    }

    fn freeze(&self, slot: WidgetUnit) -> (item: GridBoxItem) {
        GridBoxItem { slot, layout: self.layout }
    }

    fn slot(&self) -> (slot: &WidgetNode<P>) {
        &self.slot
    }

    fn with_slot(&self, slot: WidgetNode<P>) -> (item: GridBoxItemNode<P>) {
        GridBoxItemNode { slot, layout: self.layout }
    }
}

/// The items of a list, each as the shape of its slot and its layout.
pub open spec fn node_items_model<P, I: NodeItem<P>>(items: Seq<I>) -> Seq<NodeItemModel<P>> {
    Seq::new(items.len(), |i: int| items[i].model())
}

impl WidgetUnit {
    /// The finished tree that `node` stands for. There is none while a
    /// composite widget is left in a slot: every composite has to be expanded
    /// first. A group stands for nothing.
    pub fn try_from<P>(node: WidgetNode<P>) -> (frozen: Result<WidgetUnit, ()>)
        ensures
            frozen.is_ok() == !node.model().unresolved(),
            frozen matches Ok(unit) ==> unit@ == node.model().frozen(),
        decreases node.model().size(), 1nat,
    {
        match node {
            WidgetNode::Empty => Ok(WidgetUnit::Empty),
            WidgetNode::Tuple(_) => Ok(WidgetUnit::Empty),
            WidgetNode::Component(_) => Err(()),
            WidgetNode::Unit(unit) => WidgetUnit::try_from_unit(unit),
        }
    }

    /// The finished primitive that `node` stands for, if no composite widget is
    /// left in its slots.
    pub fn try_from_unit<P>(node: WidgetUnitNode<P>) -> (frozen: Result<WidgetUnit, ()>)
        ensures
            frozen.is_ok() == !node.model().unresolved(),
            frozen matches Ok(unit) ==> unit@ == node.model().frozen(),
        decreases node.model().size(), 1nat,
    {
        match node {
            WidgetUnitNode::Empty => Ok(WidgetUnit::Empty),
            WidgetUnitNode::AreaBox(b) => {
                let AreaBoxNode { id, slot } = b;
                match WidgetUnit::try_from(*slot) {
                    Ok(slot) => Ok(WidgetUnit::AreaBox(AreaBox { id, slot: Box::new(slot) })),
                    Err(_) => Err(()),
                }
            },
            WidgetUnitNode::SizeBox(b) => {
                let SizeBoxNode { id, props: _, slot, width, height, margin } = b;
                match WidgetUnit::try_from(*slot) {
                    Ok(slot) => Ok(
                        WidgetUnit::SizeBox(
                            SizeBox { id, slot: Box::new(slot), width, height, margin },
                        ),
                    ),
                    Err(_) => Err(()),
                }
            },
            WidgetUnitNode::PortalBox(b) => {
                let PortalBoxNode { id, slot, owner } = b;
                let ghost carried = slot.model();
                let payload = match *slot {
                    PortalBoxSlotNode::Slot(inner) => {
                        match WidgetUnit::try_from(inner) {
                            Ok(slot) => PortalBoxSlot::Slot(slot),
                            Err(_) => {
                                return Err(());
                            },
                        }
                    },
                    PortalBoxSlotNode::ContentItem(item) => {
                        let ContentBoxItemNode { slot, layout } = item;
                        match WidgetUnit::try_from(slot) {
                            Ok(slot) => PortalBoxSlot::ContentItem(ContentBoxItem { slot, layout }),
                            Err(_) => {
                                return Err(());
                            },
                        }
                    },
                    PortalBoxSlotNode::FlexItem(item) => {
                        let FlexBoxItemNode { slot, layout } = item;
                        match WidgetUnit::try_from(slot) {
                            Ok(slot) => PortalBoxSlot::FlexItem(FlexBoxItem { slot, layout }),
                            Err(_) => {
                                return Err(());
                            },
                        }
                    },
                    PortalBoxSlotNode::GridItem(item) => {
                        let GridBoxItemNode { slot, layout } = item;
                        match WidgetUnit::try_from(slot) {
                            Ok(slot) => PortalBoxSlot::GridItem(GridBoxItem { slot, layout }),
                            Err(_) => {
                                return Err(());
                            },
                        }
                    },
                };
                assert(payload.model() == (ItemModel {
                    slot: carried.slot.frozen(),
                    layout: carried.layout,
                }));
                Ok(WidgetUnit::PortalBox(PortalBox { id, slot: Box::new(payload), owner }))
            },
            WidgetUnitNode::ContentBox(b) => {
                let ContentBoxNode { id, props: _, items, clipping } = b;
                let ghost shapes = node.model()->Multi_items;
                let ghost given = items@;
                assert(shapes == node_items_model(given));
                match freeze_items(items, Ghost(node.model().size())) {
                    Ok(items) => {
                        let unit = WidgetUnit::ContentBox(ContentBox { id, items, clipping });
                        proof {
                            assert(unit@->Multi_items =~= node.model().frozen()->Multi_items);
                        }
                        Ok(unit)
                    },
                    Err(_) => {
                        proof {
                            let i = choose|i: int|
                                0 <= i < given.len() && (#[trigger] given[i]).model().slot.unresolved();
                            assert(shapes[i].slot.unresolved());
                        }
                        Err(())
                    },
                }
            },
            WidgetUnitNode::FlexBox(b) => {
                let FlexBoxNode { id, props: _, items, direction, separation, wrap } = b;
                let ghost shapes = node.model()->Multi_items;
                let ghost given = items@;
                assert(shapes == node_items_model(given));
                match freeze_items(items, Ghost(node.model().size())) {
                    Ok(items) => {
                        let unit = WidgetUnit::FlexBox(
                            FlexBox { id, items, direction, separation, wrap },
                        );
                        proof {
                            assert(unit@->Multi_items =~= node.model().frozen()->Multi_items);
                        }
                        Ok(unit)
                    },
                    Err(_) => {
                        proof {
                            let i = choose|i: int|
                                0 <= i < given.len() && (#[trigger] given[i]).model().slot.unresolved();
                            assert(shapes[i].slot.unresolved());
                        }
                        Err(())
                    },
                }
            },
            WidgetUnitNode::GridBox(b) => {
                let GridBoxNode { id, props: _, items, cols, rows } = b;
                let ghost shapes = node.model()->Multi_items;
                let ghost given = items@;
                assert(shapes == node_items_model(given));
                match freeze_items(items, Ghost(node.model().size())) {
                    Ok(items) => {
                        let unit = WidgetUnit::GridBox(GridBox { id, items, cols, rows });
                        proof {
                            assert(unit@->Multi_items =~= node.model().frozen()->Multi_items);
                        }
                        Ok(unit)
                    },
                    Err(_) => {
                        proof {
                            let i = choose|i: int|
                                0 <= i < given.len() && (#[trigger] given[i]).model().slot.unresolved();
                            assert(shapes[i].slot.unresolved());
                        }
                        Err(())
                    },
                }
            },
            WidgetUnitNode::ImageBox(b) => {
                let ImageBoxNode { id, props: _, content_keep_aspect_ratio } = b;
                Ok(WidgetUnit::ImageBox(ImageBox { id, content_keep_aspect_ratio }))
            },
            WidgetUnitNode::TextBox(b) => {
                let TextBoxNode { id, props: _, text } = b;
                Ok(WidgetUnit::TextBox(TextBox { id, text }))
            },
        }
    }
}

/// The finished items that `items` stand for, if no composite widget is left in
/// any of their slots.
fn freeze_items<P, I: NodeItem<P>>(items: Vec<I>, Ghost(bound): Ghost<nat>) -> (frozen: Result<
    Vec<I::Frozen>,
    (),
>)
    requires
        sum_from(node_sizes_of(node_items_model(items@)), 0) < bound,
    ensures
        frozen.is_ok() == (forall|i: int|
            0 <= i < items@.len() ==> !(#[trigger] items@[i]).model().slot.unresolved()),
        frozen matches Ok(list) ==> {
            &&& list@.len() == items@.len()
            &&& forall|i: int|
                0 <= i < items@.len() ==> (#[trigger] list@[i]).model() == (ItemModel {
                    slot: items@[i].model().slot.frozen(),
                    layout: items@[i].model().layout,
                })
        },
    decreases bound, 0nat,
{
    let ghost models = node_items_model(items@);
    let ghost given = items@;
    let mut pending = items;
    let mut frozen: Vec<I::Frozen> = Vec::new();
    let count = pending.len();
    let mut i: usize = 0;
    while i < count
        invariant
            i <= count,
            count == pending.len(),
            count == models.len(),
            frozen.len() == i,
            given.len() == count,
            given == items@,
            models == node_items_model(given),
            sum_from(node_sizes_of(models), 0) < bound,
            forall|j: int| i <= j < count ==> (#[trigger] pending@[j]).model() == models[j],
            forall|j: int| 0 <= j < i ==> !(#[trigger] models[j]).slot.unresolved(),
            forall|j: int|
                0 <= j < i ==> (#[trigger] frozen@[j]).model() == (ItemModel {
                    slot: models[j].slot.frozen(),
                    layout: models[j].layout,
                }),
        decreases count - i,
    {
        proof {
            lemma_sum_from_bound(node_sizes_of(models), 0, i as int);
        }
        let slot = pending[i].take_slot();
        match WidgetUnit::try_from(slot) {
            Ok(unit) => {
                let item = pending[i].freeze(unit);
                frozen.push(item);
            },
            Err(_) => {
                return Err(());
            },
        }
        i += 1;
    }
    proof {
        assert forall|j: int| 0 <= j < given.len() implies
            !(#[trigger] given[j]).model().slot.unresolved() by {
            assert(given[j].model() == models[j]);
        }
    }
    Ok(frozen)
}

impl<P> PortalBoxSlotNode<P> {
    /// The node that the portal carries, without its layout.
    pub fn slot(&self) -> (slot: &WidgetNode<P>)
        ensures
            slot.model() == self.model().slot,
    {
        match self {
            PortalBoxSlotNode::Slot(slot) => slot,
            PortalBoxSlotNode::ContentItem(item) => &item.slot,
            PortalBoxSlotNode::FlexItem(item) => &item.slot,
            PortalBoxSlotNode::GridItem(item) => &item.slot,
        }
    }

    /// What the portal carries, with `slot` in place of its node.
    pub fn with_slot(&self, slot: WidgetNode<P>) -> (carried: PortalBoxSlotNode<P>)
        ensures
            carried.model() == (NodeItemModel::<P> {
                slot: slot.model(),
                layout: self.model().layout,
            }),
    {
        match self {
            PortalBoxSlotNode::Slot(_) => PortalBoxSlotNode::Slot(slot),
            PortalBoxSlotNode::ContentItem(item) => PortalBoxSlotNode::ContentItem(
                ContentBoxItemNode { slot, layout: item.layout },
            ),
            PortalBoxSlotNode::FlexItem(item) => PortalBoxSlotNode::FlexItem(
                FlexBoxItemNode { slot, layout: item.layout },
            ),
            PortalBoxSlotNode::GridItem(item) => PortalBoxSlotNode::GridItem(
                GridBoxItemNode { slot, layout: item.layout },
            ),
        }
    }
}

impl<P: Copy> WidgetUnitNode<P> {
    /// A copy of the primitive and of what is in its slots.
    pub fn duplicate(&self) -> (copy: WidgetUnitNode<P>)
        ensures
            copy.model() == self.model(),
        decreases self.model().size(), 1nat,
    {
        match self {
            WidgetUnitNode::Empty => WidgetUnitNode::Empty,
            WidgetUnitNode::AreaBox(b) => WidgetUnitNode::AreaBox(
                AreaBoxNode { id: b.id.clone(), slot: Box::new(b.slot.duplicate()) },
            ),
            WidgetUnitNode::SizeBox(b) => WidgetUnitNode::SizeBox(
                SizeBoxNode {
                    id: b.id.clone(),
                    props: b.props.clone(),
                    slot: Box::new(b.slot.duplicate()),
                    width: b.width,
                    height: b.height,
                    margin: b.margin,
                },
            ),
            WidgetUnitNode::PortalBox(b) => {
                let slot = b.slot.slot().duplicate();
                WidgetUnitNode::PortalBox(
                    PortalBoxNode {
                        id: b.id.clone(),
                        slot: Box::new(b.slot.with_slot(slot)),
                        owner: b.owner.clone(),
                    },
                )
            },
            WidgetUnitNode::ContentBox(b) => {
                assert(self.model()->Multi_items == node_items_model(b.items@));
                let items = duplicate_items(&b.items, Ghost(self.model().size()));
                let copy = WidgetUnitNode::ContentBox(
                    ContentBoxNode {
                        id: b.id.clone(),
                        props: b.props.clone(),
                        items,
                        clipping: b.clipping,
                    },
                );
                assert(copy.model()->Multi_items =~= self.model()->Multi_items);
                copy
            },
            WidgetUnitNode::FlexBox(b) => {
                assert(self.model()->Multi_items == node_items_model(b.items@));
                let items = duplicate_items(&b.items, Ghost(self.model().size()));
                let copy = WidgetUnitNode::FlexBox(
                    FlexBoxNode {
                        id: b.id.clone(),
                        props: b.props.clone(),
                        items,
                        direction: b.direction,
                        separation: b.separation,
                        wrap: b.wrap,
                    },
                );
                assert(copy.model()->Multi_items =~= self.model()->Multi_items);
                copy
            },
            WidgetUnitNode::GridBox(b) => {
                assert(self.model()->Multi_items == node_items_model(b.items@));
                let items = duplicate_items(&b.items, Ghost(self.model().size()));
                let copy = WidgetUnitNode::GridBox(
                    GridBoxNode {
                        id: b.id.clone(),
                        props: b.props.clone(),
                        items,
                        cols: b.cols,
                        rows: b.rows,
                    },
                );
                assert(copy.model()->Multi_items =~= self.model()->Multi_items);
                copy
            },
            WidgetUnitNode::ImageBox(b) => WidgetUnitNode::ImageBox(
                ImageBoxNode {
                    id: b.id.clone(),
                    props: b.props.clone(),
                    content_keep_aspect_ratio: b.content_keep_aspect_ratio,
                },
            ),
            WidgetUnitNode::TextBox(b) => WidgetUnitNode::TextBox(
                TextBoxNode { id: b.id.clone(), props: b.props.clone(), text: b.text.clone() },
            ),
        }
    }
}

/// Copies of the items of a list.
fn duplicate_items<P: Copy, I: NodeItem<P>>(items: &Vec<I>, Ghost(bound): Ghost<nat>)
    -> (copy: Vec<I>)
    requires
        sum_from(node_sizes_of(node_items_model(items@)), 0) < bound,
    ensures
        copy@.len() == items@.len(),
        forall|i: int| 0 <= i < items@.len() ==> (#[trigger] copy@[i]).model() == items@[i].model(),
    decreases bound, 0nat,
{
    let mut copy: Vec<I> = Vec::new();
    let mut i: usize = 0;
    while i < items.len()
        invariant
            i <= items.len(),
            copy.len() == i,
            sum_from(node_sizes_of(node_items_model(items@)), 0) < bound,
            forall|j: int| 0 <= j < i ==> (#[trigger] copy@[j]).model() == items@[j].model(),
        decreases items.len() - i,
    {
        proof {
            lemma_sum_from_bound(node_sizes_of(node_items_model(items@)), 0, i as int);
        }
        let slot = items[i].slot().duplicate();
        copy.push(items[i].with_slot(slot));
        i += 1;
    }
    copy
}

/// What is seen of a finished tree when only identities are looked at.
#[derive(Debug, Default)]
pub struct WidgetUnitInspectionNode {
    pub id: WidgetId,
    pub children: Vec<WidgetUnitInspectionNode>,
}

/// What a [`WidgetUnitInspectionNode`] stands for.
pub struct InspectionModel {
    pub id: WidgetIdView,
    pub children: Seq<InspectionModel>,
}

impl WidgetUnitInspectionNode {
    /// The shape of this tree.
    pub open spec fn model(&self) -> InspectionModel
        decreases self,
    {
        InspectionModel {
            id: self.id@,
            children: Seq::new(
                self.children@.len(),
                |i: int|
                    if 0 <= i < self.children@.len() {
                        self.children@[i].model()
                    } else {
                        arbitrary()
                    },
            ),
        }
    }
}

/// What is seen of the slots of the first `count` items: one node for every
/// slot that holds a primitive, in order.
pub open spec fn inspected_items(items: Seq<ItemModel>, count: nat) -> Seq<InspectionModel>
    decreases items, count,
{
    if count == 0 || count > items.len() {
        Seq::empty()
    } else {
        match items[count - 1].slot.inspection() {
            Some(node) => inspected_items(items, (count - 1) as nat).push(node),
            None => inspected_items(items, (count - 1) as nat),
        }
    }
}

impl UnitModel {
    /// What is seen of the tree when only identities are looked at: nothing
    /// for nothing, and for a primitive its identity and what is seen of those
    /// of its slots that hold a primitive.
    pub open spec fn inspection(self) -> Option<InspectionModel>
        decreases self, 0nat,
    {
        match self {
            UnitModel::Empty => None,
            UnitModel::Single { id, slot, .. } => Some(
                InspectionModel {
                    id,
                    children: match slot.inspection() {
                        Some(node) => seq![node],
                        None => Seq::empty(),
                    },
                },
            ),
            UnitModel::Multi { id, items, .. } => Some(
                InspectionModel { id, children: inspected_items(items, items.len()) },
            ),
            UnitModel::Portal { id, slot, .. } => Some(
                InspectionModel {
                    id,
                    children: match slot.slot.inspection() {
                        Some(node) => seq![node],
                        None => Seq::empty(),
                    },
                },
            ),
            UnitModel::Leaf { id, .. } => Some(InspectionModel { id, children: Seq::empty() }),
        }
    }
}

/// The shapes of a list of inspection nodes.
pub open spec fn inspections_model(nodes: Seq<WidgetUnitInspectionNode>) -> Seq<InspectionModel> {
    Seq::new(nodes.len(), |i: int| nodes[i].model())
}

/// What a finished box tells about itself.
pub trait WidgetUnitData {
    /// The identity of the box.
    spec fn spec_id(&self) -> WidgetIdView;

    /// What is in the slots of the box, in order.
    spec fn spec_children(&self) -> Seq<UnitModel>;

    /// The identity of the box.
    fn id(&self) -> (id: &WidgetId)
        ensures
            id@ == self.spec_id(),
    ;

    /// What is in the slots of the box, in order.
    fn get_children(&self) -> (children: Vec<&WidgetUnit>)
        ensures
            children@.len() == self.spec_children().len(),
            forall|i: int|
                0 <= i < children@.len() ==> (#[trigger] children@[i])@ == self.spec_children()[i],
    ;
}

impl WidgetUnitData for AreaBox {
    open spec fn spec_id(&self) -> WidgetIdView {
        self.id@
    }

    open spec fn spec_children(&self) -> Seq<UnitModel> {
        seq![self.slot@]
    }

    fn id(&self) -> (id: &WidgetId) {
        &self.id
    }

    fn get_children(&self) -> (children: Vec<&WidgetUnit>) {
        let mut children: Vec<&WidgetUnit> = Vec::new();
        children.push(&*self.slot);
        children
    }
}

impl WidgetUnitData for PortalBox {
    open spec fn spec_id(&self) -> WidgetIdView {
        self.id@
    }

    open spec fn spec_children(&self) -> Seq<UnitModel> {
        seq![self.slot.model().slot]
    }

    fn id(&self) -> (id: &WidgetId) {
        &self.id
    }

    fn get_children(&self) -> (children: Vec<&WidgetUnit>) {
        let mut children: Vec<&WidgetUnit> = Vec::new();
        children.push(self.slot.slot());
        children
    }
}

impl WidgetUnitData for SizeBox {
    open spec fn spec_id(&self) -> WidgetIdView {
        self.id@
    }

    open spec fn spec_children(&self) -> Seq<UnitModel> {
        seq![self.slot@]
    }

    fn id(&self) -> (id: &WidgetId) {
        &self.id
    }

    fn get_children(&self) -> (children: Vec<&WidgetUnit>) {
        let mut children: Vec<&WidgetUnit> = Vec::new();
        children.push(&*self.slot);
        children
    }
}

impl WidgetUnitData for ContentBox {
    open spec fn spec_id(&self) -> WidgetIdView {
        self.id@
    }

    open spec fn spec_children(&self) -> Seq<UnitModel> {
        Seq::new(self.items@.len(), |i: int| self.items@[i].slot@)
    }

    fn id(&self) -> (id: &WidgetId) {
        &self.id
    }

    fn get_children(&self) -> (children: Vec<&WidgetUnit>) {
        slots_of(&self.items)
    }
}

impl WidgetUnitData for FlexBox {
    open spec fn spec_id(&self) -> WidgetIdView {
        self.id@
    }

    open spec fn spec_children(&self) -> Seq<UnitModel> {
        Seq::new(self.items@.len(), |i: int| self.items@[i].slot@)
    }

    fn id(&self) -> (id: &WidgetId) {
        &self.id
    }

    fn get_children(&self) -> (children: Vec<&WidgetUnit>) {
        slots_of(&self.items)
    }
}

impl WidgetUnitData for GridBox {
    open spec fn spec_id(&self) -> WidgetIdView {
        self.id@
    }

    open spec fn spec_children(&self) -> Seq<UnitModel> {
        Seq::new(self.items@.len(), |i: int| self.items@[i].slot@)
    }

    fn id(&self) -> (id: &WidgetId) {
        &self.id
    }

    fn get_children(&self) -> (children: Vec<&WidgetUnit>) {
        slots_of(&self.items)
    }
}

impl WidgetUnitData for ImageBox {
    open spec fn spec_id(&self) -> WidgetIdView {
        self.id@
    }

    open spec fn spec_children(&self) -> Seq<UnitModel> {
        Seq::empty()
    }

    fn id(&self) -> (id: &WidgetId) {
        &self.id
    }

    fn get_children(&self) -> (children: Vec<&WidgetUnit>) {
        Vec::new()
    }
}

impl WidgetUnitData for TextBox {
    open spec fn spec_id(&self) -> WidgetIdView {
        self.id@
    }

    open spec fn spec_children(&self) -> Seq<UnitModel> {
        Seq::empty()
    }

    fn id(&self) -> (id: &WidgetId) {
        &self.id
    }

    fn get_children(&self) -> (children: Vec<&WidgetUnit>) {
        Vec::new()
    }
}

/// The slots of the items of a list, in order.
pub fn slots_of<I: UnitItem>(items: &Vec<I>) -> (slots: Vec<&WidgetUnit>)
    ensures
        slots@.len() == items@.len(),
        forall|i: int| 0 <= i < items@.len()
            ==> (#[trigger] slots@[i]).model() == items@[i].model().slot,
{
    let mut slots: Vec<&WidgetUnit> = Vec::new();
    let mut i: usize = 0;
    while i < items.len()
        invariant
            i <= items.len(),
            slots@.len() == i,
            forall|j: int| 0 <= j < i ==> (#[trigger] slots@[j]).model() == items@[j].model().slot,
        decreases items.len() - i,
    {
        slots.push(items[i].slot());
        i += 1;
    }
    slots
}

impl WidgetUnit {
    /// The box, to ask it about itself; nothing is no box.
    pub fn as_data(&self) -> (data: Option<&dyn WidgetUnitData>)
        ensures
            match data {
                Some(data) => self@.id() == Some(data.spec_id()),
                None => self@ is Empty,
            },
    {
        match self {
            WidgetUnit::Empty => None,
            WidgetUnit::AreaBox(b) => Some(b),
            WidgetUnit::PortalBox(b) => Some(b),
            WidgetUnit::ContentBox(b) => Some(b),
            WidgetUnit::FlexBox(b) => Some(b),
            WidgetUnit::GridBox(b) => Some(b),
            WidgetUnit::SizeBox(b) => Some(b),
            WidgetUnit::ImageBox(b) => Some(b),
            WidgetUnit::TextBox(b) => Some(b),
        }
    }

    /// What is seen of the tree when only identities are looked at.
    pub fn inspect(&self) -> (node: Option<WidgetUnitInspectionNode>)
        ensures
            match node {
                Some(node) => self@.inspection() == Some(node.model()),
                None => self@.inspection().is_none(),
            },
        decreases self@.size(), 1nat,
    {
        match self {
            WidgetUnit::Empty => None,
            WidgetUnit::ImageBox(b) => {
                let node = WidgetUnitInspectionNode { id: b.id.clone(), children: Vec::new() };
                assert(node.model().children =~= Seq::empty());
                Some(node)
            },
            WidgetUnit::TextBox(b) => {
                let node = WidgetUnitInspectionNode { id: b.id.clone(), children: Vec::new() };
                assert(node.model().children =~= Seq::empty());
                Some(node)
            },
            WidgetUnit::AreaBox(b) => Some(inspect_single(&b.id, &b.slot, Ghost(self@.size()))),
            WidgetUnit::SizeBox(b) => Some(inspect_single(&b.id, &b.slot, Ghost(self@.size()))),
            WidgetUnit::PortalBox(b) => Some(
                inspect_single(&b.id, b.slot.slot(), Ghost(self@.size())),
            ),
            WidgetUnit::ContentBox(b) => {
                assert(self@->Multi_items == items_model(b.items@));
                let children = inspect_items(&b.items, Ghost(self@.size()));
                let node = WidgetUnitInspectionNode { id: b.id.clone(), children };
                assert(node.model().children =~= inspections_model(children@));
                Some(node)
            },
            WidgetUnit::FlexBox(b) => {
                assert(self@->Multi_items == items_model(b.items@));
                let children = inspect_items(&b.items, Ghost(self@.size()));
                let node = WidgetUnitInspectionNode { id: b.id.clone(), children };
                assert(node.model().children =~= inspections_model(children@));
                Some(node)
            },
            WidgetUnit::GridBox(b) => {
                assert(self@->Multi_items == items_model(b.items@));
                let children = inspect_items(&b.items, Ghost(self@.size()));
                let node = WidgetUnitInspectionNode { id: b.id.clone(), children };
                assert(node.model().children =~= inspections_model(children@));
                Some(node)
            },
        }
    }
}

/// What is seen of a box with one slot.
fn inspect_single(id: &WidgetId, slot: &WidgetUnit, Ghost(bound): Ghost<nat>) -> (node:
    WidgetUnitInspectionNode)
    requires
        slot@.size() < bound,
    ensures
        node.model() == (InspectionModel {
            id: id@,
            children: match slot@.inspection() {
                Some(child) => seq![child],
                None => Seq::empty(),
            },
        }),
    decreases bound, 0nat,
{
    let mut children: Vec<WidgetUnitInspectionNode> = Vec::new();
    match slot.inspect() {
        Some(child) => {
            children.push(child);
        },
        None => {},
    }
    let node = WidgetUnitInspectionNode { id: id.clone(), children };
    assert(node.model().children =~= match slot@.inspection() {
        Some(child) => seq![child],
        None => Seq::empty(),
    });
    node
}

/// What is seen of the slots of the items of a list.
fn inspect_items<I: UnitItem>(items: &Vec<I>, Ghost(bound): Ghost<nat>) -> (nodes: Vec<
    WidgetUnitInspectionNode,
>)
    requires
        sum_from(sizes_of(items_model(items@)), 0) < bound,
    ensures
        inspections_model(nodes@) == inspected_items(items_model(items@), items@.len()),
    decreases bound, 0nat,
{
    let ghost models = items_model(items@);
    let mut nodes: Vec<WidgetUnitInspectionNode> = Vec::new();
    let mut i: usize = 0;
    while i < items.len()
        invariant
            i <= items.len(),
            models == items_model(items@),
            sum_from(sizes_of(models), 0) < bound,
            inspections_model(nodes@) == inspected_items(models, i as nat),
        decreases items.len() - i,
    {
        proof {
            lemma_sum_from_bound(sizes_of(models), 0, i as int);
        }
        match items[i].slot().inspect() {
            Some(child) => {
                nodes.push(child);
            },
            None => {},
        }
        i += 1;
    }
    nodes
}

impl<P> WidgetUnitNode<P> {
    /// The properties of the primitive as they are held.
    pub open spec fn spec_props(&self) -> Option<Props> {
        match self {
            WidgetUnitNode::ContentBox(b) => Some(b.props),
            WidgetUnitNode::FlexBox(b) => Some(b.props),
            WidgetUnitNode::GridBox(b) => Some(b.props),
            WidgetUnitNode::SizeBox(b) => Some(b.props),
            WidgetUnitNode::ImageBox(b) => Some(b.props),
            WidgetUnitNode::TextBox(b) => Some(b.props),
            _ => None,
        }
    }

    /// Puts what `f` makes of the properties of the primitive in their place.
    /// A primitive without properties stays as it is, and `f` is not called.
    pub fn remap_props<F: FnOnce(Props) -> Props>(&mut self, f: F)
        requires
            old(self).spec_props() matches Some(props) ==> call_requires(f, (props,)),
        ensures
            match old(self).spec_props() {
                Some(props) => final(self).spec_props() matches Some(made) && call_ensures(
                    f,
                    (props,),
                    made,
                ) && final(self).model() == old(self).model().with_props(made@),
                None => *final(self) == *old(self),
            },
    {
        let mut unit = WidgetUnitNode::Empty;
        std::mem::swap(self, &mut unit);
        *self = match unit {
            WidgetUnitNode::ContentBox(b) => {
                let ContentBoxNode { id, props, items, clipping } = b;
                let made = WidgetUnitNode::ContentBox(
                    ContentBoxNode { id, props: f(props), items, clipping },
                );
                made
            },
            WidgetUnitNode::FlexBox(b) => {
                let FlexBoxNode { id, props, items, direction, separation, wrap } = b;
                let made = WidgetUnitNode::FlexBox(
                    FlexBoxNode { id, props: f(props), items, direction, separation, wrap },
                );
                made
            },
            WidgetUnitNode::GridBox(b) => {
                let GridBoxNode { id, props, items, cols, rows } = b;
                let made = WidgetUnitNode::GridBox(
                    GridBoxNode { id, props: f(props), items, cols, rows },
                );
                made
            },
            WidgetUnitNode::SizeBox(b) => {
                let mut b = b;
                b.remap_props(f);
                WidgetUnitNode::SizeBox(b)
            },
            WidgetUnitNode::ImageBox(b) => {
                let ImageBoxNode { id, props, content_keep_aspect_ratio } = b;
                WidgetUnitNode::ImageBox(
                    ImageBoxNode { id, props: f(props), content_keep_aspect_ratio },
                )
            },
            WidgetUnitNode::TextBox(b) => {
                let TextBoxNode { id, props, text } = b;
                WidgetUnitNode::TextBox(TextBoxNode { id, props: f(props), text })
            },
            other => other,
        };
    }
}

impl<P> WidgetUnitNode<P> {
    /// The properties of the primitive, to change them in place.
    pub fn props_mut(&mut self) -> (props: Option<&mut Props>)
        ensures
            match props {
                Some(props) => {
                    &&& old(self).spec_props() == Some(*props)
                    &&& final(self).spec_props() == Some(*final(props))
                    &&& final(self).model() == old(self).model().with_props((*final(props))@)
                },
                None => old(self).spec_props().is_none() && *final(self) == *old(self),
            },
    {
        match self {
            WidgetUnitNode::ContentBox(b) => Some(&mut b.props),
            WidgetUnitNode::FlexBox(b) => Some(&mut b.props),
            WidgetUnitNode::GridBox(b) => Some(&mut b.props),
            WidgetUnitNode::SizeBox(b) => Some(&mut b.props),
            WidgetUnitNode::ImageBox(b) => Some(&mut b.props),
            WidgetUnitNode::TextBox(b) => Some(&mut b.props),
            _ => None,
        }
    }
}

impl<P> WidgetUnitNode<P> {
    /// The layout primitive that a node is; any other node is none.
    pub fn try_from(node: WidgetNode<P>) -> (unit: Result<WidgetUnitNode<P>, ()>)
        ensures
            match unit {
                Ok(unit) => node == WidgetNode::Unit(unit),
                Err(_) => !(node is Unit),
            },
    {
        match node {
            WidgetNode::Unit(unit) => Ok(unit),
            _ => Err(()),
        }
    }
}

impl<P> From<AreaBoxNode<P>> for WidgetUnitNode<P> {
    fn from(unit: AreaBoxNode<P>) -> (node: WidgetUnitNode<P>) {
        WidgetUnitNode::AreaBox(unit)
    }
}

impl<P> FromSpecImpl<AreaBoxNode<P>> for WidgetUnitNode<P> {
    open spec fn obeys_from_spec() -> bool {
        true
    }

    open spec fn from_spec(unit: AreaBoxNode<P>) -> WidgetUnitNode<P> {
        WidgetUnitNode::AreaBox(unit)
    }
}

impl<P> From<PortalBoxNode<P>> for WidgetUnitNode<P> {
    fn from(unit: PortalBoxNode<P>) -> (node: WidgetUnitNode<P>) {
        WidgetUnitNode::PortalBox(unit)
    }
}

impl<P> FromSpecImpl<PortalBoxNode<P>> for WidgetUnitNode<P> {
    open spec fn obeys_from_spec() -> bool {
        true
    }

    open spec fn from_spec(unit: PortalBoxNode<P>) -> WidgetUnitNode<P> {
        WidgetUnitNode::PortalBox(unit)
    }
}

impl<P> From<ContentBoxNode<P>> for WidgetUnitNode<P> {
    fn from(unit: ContentBoxNode<P>) -> (node: WidgetUnitNode<P>) {
        WidgetUnitNode::ContentBox(unit)
    }
}

impl<P> FromSpecImpl<ContentBoxNode<P>> for WidgetUnitNode<P> {
    open spec fn obeys_from_spec() -> bool {
        true
    }

    open spec fn from_spec(unit: ContentBoxNode<P>) -> WidgetUnitNode<P> {
        WidgetUnitNode::ContentBox(unit)
    }
}

impl<P> From<FlexBoxNode<P>> for WidgetUnitNode<P> {
    fn from(unit: FlexBoxNode<P>) -> (node: WidgetUnitNode<P>) {
        WidgetUnitNode::FlexBox(unit)
    }
}

impl<P> FromSpecImpl<FlexBoxNode<P>> for WidgetUnitNode<P> {
    open spec fn obeys_from_spec() -> bool {
        true
    }

    open spec fn from_spec(unit: FlexBoxNode<P>) -> WidgetUnitNode<P> {
        WidgetUnitNode::FlexBox(unit)
    }
}

impl<P> From<GridBoxNode<P>> for WidgetUnitNode<P> {
    fn from(unit: GridBoxNode<P>) -> (node: WidgetUnitNode<P>) {
        WidgetUnitNode::GridBox(unit)
    }
}

impl<P> FromSpecImpl<GridBoxNode<P>> for WidgetUnitNode<P> {
    open spec fn obeys_from_spec() -> bool {
        true
    }

    open spec fn from_spec(unit: GridBoxNode<P>) -> WidgetUnitNode<P> {
        WidgetUnitNode::GridBox(unit)
    }
}

impl<P> From<SizeBoxNode<P>> for WidgetUnitNode<P> {
    fn from(unit: SizeBoxNode<P>) -> (node: WidgetUnitNode<P>) {
        WidgetUnitNode::SizeBox(unit)
    }
}

impl<P> FromSpecImpl<SizeBoxNode<P>> for WidgetUnitNode<P> {
    open spec fn obeys_from_spec() -> bool {
        true
    }

    open spec fn from_spec(unit: SizeBoxNode<P>) -> WidgetUnitNode<P> {
        WidgetUnitNode::SizeBox(unit)
    }
}

impl<P> From<ImageBoxNode> for WidgetUnitNode<P> {
    fn from(unit: ImageBoxNode) -> (node: WidgetUnitNode<P>) {
        WidgetUnitNode::ImageBox(unit)
    }
}

impl<P> FromSpecImpl<ImageBoxNode> for WidgetUnitNode<P> {
    open spec fn obeys_from_spec() -> bool {
        true
    }

    open spec fn from_spec(unit: ImageBoxNode) -> WidgetUnitNode<P> {
        WidgetUnitNode::ImageBox(unit)
    }
}

impl<P> From<TextBoxNode> for WidgetUnitNode<P> {
    fn from(unit: TextBoxNode) -> (node: WidgetUnitNode<P>) {
        WidgetUnitNode::TextBox(unit)
    }
}

impl<P> FromSpecImpl<TextBoxNode> for WidgetUnitNode<P> {
    open spec fn obeys_from_spec() -> bool {
        true
    }

    open spec fn from_spec(unit: TextBoxNode) -> WidgetUnitNode<P> {
        WidgetUnitNode::TextBox(unit)
    }
}

} // verus!
