//! The image box: a leaf that shows a picture.

use crate::props::Props;
use crate::widget::WidgetId;
use vstd::prelude::*;

verus! {

/// A finished image box.
#[derive(Debug)]
pub struct ImageBox {
    pub id: WidgetId,
    pub content_keep_aspect_ratio: bool,
}

/// An image box in a declarative tree.
#[derive(Debug)]
pub struct ImageBoxNode {
    pub id: WidgetId,
    pub props: Props,
    pub content_keep_aspect_ratio: bool,
}

} // verus!
