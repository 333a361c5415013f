//! Style value types crossing the boundary into the core: part of the public
//! interface but not necessarily how anything is stored internally. Similar
//! to the respective CSS properties but not the same (dimensions are
//! absolute, granularity is different, and so on).

use vstd::prelude::*;
use crate::commons::{Au, Color, Pos};
use crate::render::{ContainerId, ImageId, TextId};

verus! {

/// One entry of a container's ordered child list.
#[derive(Clone, Copy, Debug, PartialEq, Eq, Structural)]
pub enum Child {
    Container(ContainerId),
    Text(TextId),
}

/// Four corner radii; stored but not yet consumed by the paint traversal.
#[derive(Clone, Copy, Debug, PartialEq, Eq, Structural)]
pub struct BorderRadius {
    pub top_left: Au,
    pub top_right: Au,
    pub bottom_right: Au,
    pub bottom_left: Au,
}

/// Overflow behavior; currently advisory (clipping is not yet enforced).
#[derive(Clone, Copy, Debug, PartialEq, Eq, Structural)]
pub enum Overflow {
    Visible,
    Hidden,
    Scroll,
}

/// A shadow painted outside the box, inflated by `spread`. The `blur` field
/// is accepted but not yet rendered.
#[derive(Clone, Copy, Debug, PartialEq, Eq, Structural)]
pub struct OutlineShadow {
    pub offset: Pos,
    pub blur: Au,
    pub spread: Au,
    pub color: Color,
}

/// A frame of `width` painted outside the box edges.
#[derive(Clone, Copy, Debug, PartialEq, Eq, Structural)]
pub struct Outline {
    pub width: Au,
    pub style: BorderStyle,
    pub color: Color,
}

/// The style of an outline; the same variants as a border's.
pub type OutlineStyle = BorderStyle;

/// One entry of a container's ordered background list. Gradients are
/// accepted but currently emit no primitive.
#[derive(Clone, Copy, Debug, PartialEq, Eq, Structural)]
pub enum BackgroundImage {
    Image { image: ImageId },
    LinearGradient,
    RadialGradient,
}

/// Four independently optional border sides, each painted inside the box
/// edge of that side.
#[derive(Clone, Copy, Debug)]
pub struct Border {
    pub top: Option<BorderSide>,
    pub right: Option<BorderSide>,
    pub bottom: Option<BorderSide>,
    pub left: Option<BorderSide>,
}

/// One border side; only `Solid` currently draws.
#[derive(Clone, Copy, Debug, PartialEq, Eq, Structural)]
pub struct BorderSide {
    pub width: Au,
    pub style: BorderStyle,
    pub color: Color,
}

/// How a border (or outline) stroke is drawn.
#[derive(Clone, Copy, Debug, PartialEq, Eq, Structural)]
pub enum BorderStyle {
    Solid,
}

/// A shadow painted inside the box; accepted and stored, rendering is a
/// declared open extension point.
#[derive(Clone, Copy, Debug, PartialEq, Eq, Structural)]
pub struct InsetShadow {
    pub offset: Pos,
    pub blur: Au,
    pub spread: Au,
    pub color: Color,
}

/// The error taxonomy: programmer-error class faults arising from misuse of
/// handles, indices and keys, fatal for the current call.
#[derive(Clone, Copy, Debug, PartialEq, Eq, Structural)]
pub enum RenderError {
    /// An access with an out-of-range container, text or image handle.
    InvalidHandle,
    /// A child insertion index beyond the current list length.
    IndexOutOfRange,
    /// A bounds key reachable during traversal has no entry in the supplied
    /// lookup.
    MissingBoundsKey,
    /// A pixel buffer length disagrees with `width * height * 4`.
    TextureDataSizeMismatch,
}

} // verus!
