//! The size box: one slot with a requested width and height.

use crate::props::Props;
use crate::widget::node::WidgetNode;
use crate::widget::unit::WidgetUnit;
use crate::widget::utils::Rect;
use crate::widget::WidgetId;
use crate::Scalar;
use vstd::prelude::*;

verus! {

/// How a size box sizes one of its axes.
#[derive(Debug, Clone, Copy, PartialEq, Eq, Structural)]
pub enum SizeBoxSizeValue {
    Content,
    Fill,
    Exact(Scalar),
}

impl Default for SizeBoxSizeValue {
    fn default() -> (value: SizeBoxSizeValue)
        ensures
            value == SizeBoxSizeValue::Content,
    {
        SizeBoxSizeValue::Content
    }
}

/// A size box whose slot is a finished primitive.
#[derive(Debug)]
pub struct SizeBox {
    pub id: WidgetId,
    pub slot: Box<WidgetUnit>,
    pub width: SizeBoxSizeValue,
    pub height: SizeBoxSizeValue,
    pub margin: Rect,
}

/// A size box whose slot is still to be expanded.
#[derive(Debug)]
pub struct SizeBoxNode<P> {
    pub id: WidgetId,
    pub props: Props,
    pub slot: Box<WidgetNode<P>>,
    pub width: SizeBoxSizeValue,
    pub height: SizeBoxSizeValue,
    pub margin: Rect,
}

impl<P> SizeBoxNode<P> {
    /// Puts what `f` makes of the properties in their place.
    pub fn remap_props<F: FnOnce(Props) -> Props>(&mut self, f: F)
        requires
            call_requires(f, (old(self).props,)),
        ensures
            call_ensures(f, (old(self).props,), final(self).props),
            final(self).id == old(self).id,
            final(self).slot == old(self).slot,
            final(self).width == old(self).width,
            final(self).height == old(self).height,
            final(self).margin == old(self).margin,
    {
        let mut props = Props::new();
        std::mem::swap(&mut self.props, &mut props);
        self.props = f(props);
    }
}

impl SizeBox {
    /// The finished size box that `node` stands for, if no composite widget is
    /// left in its slot.
    pub fn try_from<P>(node: SizeBoxNode<P>) -> (frozen: Result<SizeBox, ()>)
        ensures
            frozen.is_ok() == !node.slot.model().unresolved(),
            frozen matches Ok(unit) ==> {
                &&& unit.id == node.id
                &&& unit.slot@ == node.slot.model().frozen()
                &&& unit.width == node.width
                &&& unit.height == node.height
                &&& unit.margin == node.margin
            },
    {
        let SizeBoxNode { id, props: _, slot, width, height, margin } = node;
        match WidgetUnit::try_from(*slot) {
            Ok(slot) => Ok(SizeBox { id, slot: Box::new(slot), width, height, margin }),
            Err(_) => Err(()),
        }
    }
}

} // verus!
