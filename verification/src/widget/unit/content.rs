//! The content box: items laid over each other.

use crate::props::Props;
use crate::widget::node::WidgetNode;
use crate::widget::unit::WidgetUnit;
use crate::widget::utils::Rect;
use crate::widget::WidgetId;
use crate::Scalar;
use vstd::prelude::*;

verus! {

/// Where a content box puts one of its items.
#[derive(Debug, Clone, Copy, PartialEq, Eq, Structural)]
pub struct ContentBoxItemLayout {
    pub anchors: Rect,
    pub margin: Rect,
    pub depth: Scalar,
}

impl Default for ContentBoxItemLayout {
    fn default() -> (layout: ContentBoxItemLayout)
        ensures
            layout == ContentBoxItemLayout::spec_default(),
    {
        ContentBoxItemLayout { anchors: Rect::default(), margin: Rect::default(), depth: 0 }
    }
}

impl ContentBoxItemLayout {
    /// The layout of an item that asks for nothing.
    pub open spec fn spec_default() -> ContentBoxItemLayout {
        ContentBoxItemLayout {
            anchors: Rect { left: 0, right: 0, top: 0, bottom: 0 },
            margin: Rect { left: 0, right: 0, top: 0, bottom: 0 },
            depth: 0,
        }
    }
}

/// An item of a finished content box.
#[derive(Debug)]
pub struct ContentBoxItem {
    pub slot: WidgetUnit,
    pub layout: ContentBoxItemLayout,
}

/// A content box whose items are finished primitives.
#[derive(Debug)]
pub struct ContentBox {
    pub id: WidgetId,
    pub items: Vec<ContentBoxItem>,
    pub clipping: bool,
}

/// An item of a content box that is still to be expanded.
#[derive(Debug)]
pub struct ContentBoxItemNode<P> {
    pub slot: WidgetNode<P>,
    pub layout: ContentBoxItemLayout,
}

/// A content box whose items are still to be expanded.
#[derive(Debug)]
pub struct ContentBoxNode<P> {
    pub id: WidgetId,
    pub props: Props,
    pub items: Vec<ContentBoxItemNode<P>>,
    pub clipping: bool,
}

} // verus!
