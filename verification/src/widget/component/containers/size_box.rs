//! The size box widget: its content in a box of a requested size.

use crate::props::{scalar_of, Props, PropsValue, PropsValueView};
use crate::widget::component::{named_slot, named_slot_index, take_named_slot};
use crate::widget::context::WidgetContext;
use crate::widget::node::{named_model, NodeModel, UnitNodeModel, WidgetNode};
use crate::widget::unit::size::{SizeBoxNode, SizeBoxSizeValue};
use crate::widget::unit::{SingleKind, WidgetUnitNode};
use crate::widget::utils::Rect;
use vstd::prelude::*;

verus! {

/// What a size box widget reads from its properties.
#[derive(Debug, Clone, Copy, PartialEq, Eq, Structural)]
pub struct SizeBoxProps {
    pub width: SizeBoxSizeValue,
    pub height: SizeBoxSizeValue,
    pub margin: Rect,
}

impl Default for SizeBoxProps {
    fn default() -> (props: SizeBoxProps)
        ensures
            props == (SizeBoxProps {
                width: SizeBoxSizeValue::Content,
                height: SizeBoxSizeValue::Content,
                margin: Rect { left: 0, right: 0, top: 0, bottom: 0 },
            }),
    {
        SizeBoxProps {
            width: SizeBoxSizeValue::Content,
            height: SizeBoxSizeValue::Content,
            margin: Rect { left: 0, right: 0, top: 0, bottom: 0 },
        }
    }
}

/// The size that is stored under `name`: an exact size for a number that
/// fits, filling for a set flag, and the size of the content otherwise.
pub open spec fn size_value_of(props: Map<Seq<char>, PropsValueView>, name: Seq<char>)
    -> SizeBoxSizeValue {
    if props.contains_key(name) {
        match props[name] {
            PropsValueView::Integer(number) => if i32::MIN <= number <= i32::MAX {
                SizeBoxSizeValue::Exact(number as i32)
            } else {
                SizeBoxSizeValue::Content
            },
            PropsValueView::Flag(true) => SizeBoxSizeValue::Fill,
            _ => SizeBoxSizeValue::Content,
        }
    } else {
        SizeBoxSizeValue::Content
    }
}

/// The size that is stored under `name`.
pub fn read_size_value(props: &Props, name: &str) -> (value: SizeBoxSizeValue)
    ensures
        value == size_value_of(props@, name@),
{
    match props.read(name) {
        Some(PropsValue::Integer(number)) => {
            if *number >= -2147483648 && *number <= 2147483647 {
                SizeBoxSizeValue::Exact(*number as i32)
            } else {
                SizeBoxSizeValue::Content
            }
        },
        Some(PropsValue::Flag(flag)) => {
            if *flag {
                SizeBoxSizeValue::Fill
            } else {
                SizeBoxSizeValue::Content
            }
        },
        _ => SizeBoxSizeValue::Content,
    }
}

impl SizeBoxProps {
    /// What a bag of properties says about a size box.
    pub open spec fn of(props: Map<Seq<char>, PropsValueView>) -> SizeBoxProps {
        SizeBoxProps {
            width: size_value_of(props, "width"@),
            height: size_value_of(props, "height"@),
            margin: Rect {
                left: scalar_of(props, "margin_left"@),
                right: scalar_of(props, "margin_right"@),
                top: scalar_of(props, "margin_top"@),
                bottom: scalar_of(props, "margin_bottom"@),
            },
        }
    }

    /// Reads the properties of a size box from a bag; what the bag does not
    /// hold is as in the default.
    pub fn read(props: &Props) -> (read: SizeBoxProps)
        ensures
            read == SizeBoxProps::of(props@),
    {
        SizeBoxProps {
            width: read_size_value(props, "width"),
            height: read_size_value(props, "height"),
            margin: Rect {
                left: props.read_scalar("margin_left"),
                right: props.read_scalar("margin_right"),
                top: props.read_scalar("margin_top"),
                bottom: props.read_scalar("margin_bottom"),
            },
        }
    }
}

/// The processor of the size box widget: a size box with the widget's
/// identity and properties, the size and margin that the properties ask for,
/// and in its slot the child called `content`, which is taken from the
/// context.
pub fn size_box<P>(context: &mut WidgetContext<P>) -> (node: WidgetNode<P>)
    ensures
        node.model() == NodeModel::Unit(
            UnitNodeModel::Single {
                kind: SingleKind::Size {
                    width: SizeBoxProps::of(old(context).props@).width,
                    height: SizeBoxProps::of(old(context).props@).height,
                    margin: SizeBoxProps::of(old(context).props@).margin,
                },
                id: old(context).id@,
                props: Some(old(context).props@),
                slot: Box::new(named_slot(named_model(old(context).named_slots@), "content"@, 0)),
            },
        ),
        match named_slot_index(named_model(old(context).named_slots@), "content"@, 0) {
            Some(index) => {
                &&& 0 <= index < old(context).named_slots@.len()
                &&& final(context).named_slots@ == old(context).named_slots@.remove(index)
            },
            None => final(context).named_slots@ == old(context).named_slots@,
        },
        final(context).id == old(context).id,
        final(context).idref == old(context).idref,
        final(context).props == old(context).props,
        final(context).shared_props == old(context).shared_props,
        final(context).key == old(context).key,
        final(context).state == old(context).state,
        final(context).animator == old(context).animator,
        final(context).listed_slots == old(context).listed_slots,
        final(context).life_cycle == old(context).life_cycle,
{
    let content = take_named_slot(&mut context.named_slots, "content");
    let SizeBoxProps { width, height, margin } = SizeBoxProps::read(&context.props);
    let unit = WidgetUnitNode::SizeBox(
        SizeBoxNode {
            id: context.id.clone(),
            props: context.props.clone(),
            slot: Box::new(content),
            width,
            height,
            margin,
        },
    );
    assert(unit.model() == (UnitNodeModel::<P>::Single {
        kind: SingleKind::Size { width, height, margin },
        id: context.id@,
        props: Some(context.props@),
        slot: Box::new(content.model()),
    }));
    WidgetNode::Unit(unit)
}

} // verus!
