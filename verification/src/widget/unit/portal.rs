//! The portal box: content that is shown under another widget, its owner.

use crate::widget::node::WidgetNode;
use crate::widget::unit::content::{ContentBoxItem, ContentBoxItemNode};
use crate::widget::unit::flex::{FlexBoxItem, FlexBoxItemNode};
use crate::widget::unit::grid::{GridBoxItem, GridBoxItemNode};
use crate::widget::unit::WidgetUnit;
use crate::widget::WidgetId;
use vstd::prelude::*;

verus! {

/// What a finished portal carries to its owner: a bare primitive, or an item
/// with the layout it wants in a content, flex or grid box.
#[derive(Debug)]
pub enum PortalBoxSlot {
    Slot(WidgetUnit),
    ContentItem(ContentBoxItem),
    FlexItem(FlexBoxItem),
    GridItem(GridBoxItem),
}

/// A finished portal box.
#[derive(Debug)]
pub struct PortalBox {
    pub id: WidgetId,
    pub slot: Box<PortalBoxSlot>,
    pub owner: WidgetId,
}

/// What a portal that is still to be expanded carries.
#[derive(Debug)]
pub enum PortalBoxSlotNode<P> {
    Slot(WidgetNode<P>),
    ContentItem(ContentBoxItemNode<P>),
    FlexItem(FlexBoxItemNode<P>),
    GridItem(GridBoxItemNode<P>),
}

/// A portal box whose content is still to be expanded.
#[derive(Debug)]
pub struct PortalBoxNode<P> {
    pub id: WidgetId,
    pub slot: Box<PortalBoxSlotNode<P>>,
    pub owner: WidgetId,
}

} // verus!
