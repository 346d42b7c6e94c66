//! The text box: a leaf that shows a line of text.

use crate::props::Props;
use crate::widget::WidgetId;
use vstd::prelude::*;

verus! {

/// A finished text box.
#[derive(Debug)]
pub struct TextBox {
    pub id: WidgetId,
    pub text: String,
}

/// A text box in a declarative tree.
#[derive(Debug)]
pub struct TextBoxNode {
    pub id: WidgetId,
    pub props: Props,
    pub text: String,
}

} // verus!
