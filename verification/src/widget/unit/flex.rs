//! The flex box: items laid along one axis.

use crate::props::Props;
use crate::widget::node::WidgetNode;
use crate::widget::unit::WidgetUnit;
use crate::widget::utils::Rect;
use crate::widget::WidgetId;
use crate::Scalar;
use vstd::prelude::*;

verus! {

/// The axis and direction along which a flex box lays its items.
#[derive(Debug, Clone, Copy, PartialEq, Eq, Structural)]
pub enum FlexBoxDirection {
    HorizontalLeftToRight,
    HorizontalRightToLeft,
    VerticalTopToBottom,
    VerticalBottomToTop,
}

impl Default for FlexBoxDirection {
    fn default() -> (direction: FlexBoxDirection)
        ensures
            direction == FlexBoxDirection::HorizontalLeftToRight,
    {
        FlexBoxDirection::HorizontalLeftToRight
    }
}

/// How a flex box sizes and places one of its items.
#[derive(Debug, Clone, Copy, PartialEq, Eq, Structural)]
pub struct FlexBoxItemLayout {
    pub fill: Scalar,
    pub grow: Scalar,
    pub shrink: Scalar,
    pub margin: Rect,
}

impl Default for FlexBoxItemLayout {
    fn default() -> (layout: FlexBoxItemLayout)
        ensures
            layout == FlexBoxItemLayout::spec_default(),
    {
        FlexBoxItemLayout { fill: 0, grow: 0, shrink: 0, margin: Rect::default() }
    }
}

impl FlexBoxItemLayout {
    /// The layout of an item that asks for nothing.
    pub open spec fn spec_default() -> FlexBoxItemLayout {
        FlexBoxItemLayout {
            fill: 0,
            grow: 0,
            shrink: 0,
            margin: Rect { left: 0, right: 0, top: 0, bottom: 0 },
        }
    }
}

/// An item of a finished flex box.
#[derive(Debug)]
pub struct FlexBoxItem {
    pub slot: WidgetUnit,
    pub layout: FlexBoxItemLayout,
}

/// A flex box whose items are finished primitives.
#[derive(Debug)]
pub struct FlexBox {
    pub id: WidgetId,
    pub items: Vec<FlexBoxItem>,
    pub direction: FlexBoxDirection,
    pub separation: Scalar,
    pub wrap: bool,
}

/// An item of a flex box that is still to be expanded.
#[derive(Debug)]
pub struct FlexBoxItemNode<P> {
    pub slot: WidgetNode<P>,
    pub layout: FlexBoxItemLayout,
}

/// A flex box whose items are still to be expanded.
#[derive(Debug)]
pub struct FlexBoxNode<P> {
    pub id: WidgetId,
    pub props: Props,
    pub items: Vec<FlexBoxItemNode<P>>,
    pub direction: FlexBoxDirection,
    pub separation: Scalar,
    pub wrap: bool,
}

} // verus!
