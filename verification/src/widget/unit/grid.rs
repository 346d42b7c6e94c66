//! The grid box: items placed in cells.

use crate::props::Props;
use crate::widget::node::WidgetNode;
use crate::widget::unit::WidgetUnit;
use crate::widget::utils::Rect;
use crate::widget::WidgetId;
use vstd::prelude::*;

verus! {

/// The cell of a grid box that an item occupies.
#[derive(Debug, Clone, Copy, PartialEq, Eq, Structural)]
pub struct GridBoxItemLayout {
    pub column: usize,
    pub row: usize,
    pub margin: Rect,
}

impl Default for GridBoxItemLayout {
    fn default() -> (layout: GridBoxItemLayout)
        ensures
            layout == GridBoxItemLayout::spec_default(),
    {
        GridBoxItemLayout { column: 0, row: 0, margin: Rect::default() }
    }
}

impl GridBoxItemLayout {
    /// The layout of an item that asks for nothing.
    pub open spec fn spec_default() -> GridBoxItemLayout {
        GridBoxItemLayout {
            column: 0,
            row: 0,
            margin: Rect { left: 0, right: 0, top: 0, bottom: 0 },
        }
    }
}

/// An item of a finished grid box.
#[derive(Debug)]
pub struct GridBoxItem {
    pub slot: WidgetUnit,
    pub layout: GridBoxItemLayout,
}

/// A grid box whose items are finished primitives.
#[derive(Debug)]
pub struct GridBox {
    pub id: WidgetId,
    pub items: Vec<GridBoxItem>,
    pub cols: usize,
    pub rows: usize,
}

/// An item of a grid box that is still to be expanded.
#[derive(Debug)]
pub struct GridBoxItemNode<P> {
    pub slot: WidgetNode<P>,
    pub layout: GridBoxItemLayout,
}

/// A grid box whose items are still to be expanded.
#[derive(Debug)]
pub struct GridBoxNode<P> {
    pub id: WidgetId,
    pub props: Props,
    pub items: Vec<GridBoxItemNode<P>>,
    pub cols: usize,
    pub rows: usize,
}

} // verus!
