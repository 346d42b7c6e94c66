//! The area box: one slot that marks a region of the interface.

use crate::widget::node::WidgetNode;
use crate::widget::unit::WidgetUnit;
use crate::widget::WidgetId;
use vstd::prelude::*;

verus! {

/// An area box whose slot is a finished primitive.
#[derive(Debug)]
pub struct AreaBox {
    pub id: WidgetId,
    pub slot: Box<WidgetUnit>,
}

/// An area box whose slot is still to be expanded.
#[derive(Debug)]
pub struct AreaBoxNode<P> {
    pub id: WidgetId,
    pub slot: Box<WidgetNode<P>>,
}

} // verus!
