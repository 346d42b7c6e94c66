//! The vertical box widget: a flex box that lays its children from top to
//! bottom, or from bottom to top.

use crate::props::{flag_of, scalar_of, Props, PropsValue, PropsValueView};
use crate::widget::component::WidgetComponent;
use crate::widget::context::WidgetContext;
use crate::widget::node::WidgetNode;
use crate::widget::unit::flex::FlexBoxDirection;
use crate::Scalar;
use vstd::prelude::*;

verus! {

/// What a vertical box widget reads from its properties.
#[derive(Debug, Clone, Copy, PartialEq, Eq, Structural)]
pub struct VerticalBoxProps {
    pub separation: Scalar,
    pub reversed: bool,
}

impl Default for VerticalBoxProps {
    fn default() -> (props: VerticalBoxProps)
        ensures
            props == (VerticalBoxProps { separation: 0, reversed: false }),
    {
        VerticalBoxProps { separation: 0, reversed: false }
    }
}

impl VerticalBoxProps {
    /// What a bag of properties says about a vertical box.
    pub open spec fn of(props: Map<Seq<char>, PropsValueView>) -> VerticalBoxProps {
        VerticalBoxProps {
            separation: scalar_of(props, "separation"@),
            reversed: flag_of(props, "reversed"@),
        }
    }

    /// The direction in which the box lays its children.
    pub open spec fn spec_direction(self) -> FlexBoxDirection {
        if self.reversed {
            FlexBoxDirection::VerticalBottomToTop
        } else {
            FlexBoxDirection::VerticalTopToBottom
        }
    }

    /// Reads the properties of a vertical box from a bag; what the bag does
    /// not hold is as in the default.
    pub fn read(props: &Props) -> (read: VerticalBoxProps)
        ensures
            read == VerticalBoxProps::of(props@),
    {
        VerticalBoxProps {
            separation: props.read_scalar("separation"),
            reversed: props.read_flag("reversed"),
        }
    }

    /// The direction in which the box lays its children.
    #[verifier::when_used_as_spec(spec_direction)]
    pub fn direction(self) -> (direction: FlexBoxDirection)
        ensures
            direction == self.spec_direction(),
    {
        if self.reversed {
            FlexBoxDirection::VerticalBottomToTop
        } else {
            FlexBoxDirection::VerticalTopToBottom
        }
    }
}

/// The number that stands for a direction in a bag of properties.
pub open spec fn direction_code(direction: FlexBoxDirection) -> i64 {
    match direction {
        FlexBoxDirection::HorizontalLeftToRight => 0,
        FlexBoxDirection::HorizontalRightToLeft => 1,
        FlexBoxDirection::VerticalTopToBottom => 2,
        FlexBoxDirection::VerticalBottomToTop => 3,
    }
}

/// The properties that a vertical box hands to the flex box that it is made
/// of: its own, with the direction, the separation, and no wrapping.
pub open spec fn flex_props_of(props: Map<Seq<char>, PropsValueView>) -> Map<
    Seq<char>,
    PropsValueView,
> {
    props.insert(
        "direction"@,
        PropsValueView::Integer(direction_code(VerticalBoxProps::of(props).spec_direction())),
    ).insert(
        "separation"@,
        PropsValueView::Integer(VerticalBoxProps::of(props).separation as i64),
    ).insert("wrap"@, PropsValueView::Flag(false))
}

/// The processor of the vertical box widget: a flex box widget with the key
/// of this widget, expanded by `flex_box`, with the listed children, which are
/// taken from the context.
pub fn vertical_box<P>(context: &mut WidgetContext<P>, flex_box: P) -> (node: WidgetNode<P>)
    ensures
        node matches WidgetNode::Component(component) && {
            &&& component.processor == flex_box
            &&& component.type_tag@ == "flex_box"@
            &&& component.key matches Some(key) && key@ == old(context).key@
            &&& component.idref.is_none()
            &&& component.props@ == flex_props_of(old(context).props@)
            &&& component.shared_props.is_none()
            &&& component.listed_slots == old(context).listed_slots
            &&& component.named_slots@.len() == 0
        },
        final(context).listed_slots@.len() == 0,
        final(context).id == old(context).id,
        final(context).idref == old(context).idref,
        final(context).state == old(context).state,
        final(context).animator == old(context).animator,
        final(context).props == old(context).props,
        final(context).shared_props == old(context).shared_props,
        final(context).key == old(context).key,
        final(context).named_slots == old(context).named_slots,
        final(context).life_cycle == old(context).life_cycle,
{
    let read = VerticalBoxProps::read(&context.props);
    let code: i64 = match read.direction() {
        FlexBoxDirection::HorizontalLeftToRight => 0,
        FlexBoxDirection::HorizontalRightToLeft => 1,
        FlexBoxDirection::VerticalTopToBottom => 2,
        FlexBoxDirection::VerticalBottomToTop => 3,
    };
    let props = context.props.clone().with(
        "direction".to_owned(),
        PropsValue::Integer(code),
    ).with("separation".to_owned(), PropsValue::Integer(read.separation as i64)).with(
        "wrap".to_owned(),
        PropsValue::Flag(false),
    );
    let mut listed_slots: Vec<WidgetNode<P>> = Vec::new();
    std::mem::swap(&mut context.listed_slots, &mut listed_slots);
    WidgetNode::Component(
        WidgetComponent {
            processor: flex_box,
            type_tag: "flex_box".to_owned(),
            key: Some(context.key.clone()),
            idref: None,
            props,
            shared_props: None,
            listed_slots,
            named_slots: Vec::new(),
        },
    )
}

} // verus!
