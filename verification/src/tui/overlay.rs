//! Where an overlay is placed: anchors, margins and the resolved layout.
use vstd::prelude::*;

verus! {

/// Anchor position of an overlay.
#[derive(PartialEq, Eq, Structural, Clone, Copy, Debug)]
pub enum OverlayAnchor {
    Center,
    TopLeft,
    TopRight,
    BottomLeft,
    BottomRight,
    TopCenter,
    BottomCenter,
    LeftCenter,
    RightCenter,
}

impl Default for OverlayAnchor {
    fn default() -> (a: Self)
        ensures
            a == OverlayAnchor::Center,
    {
        OverlayAnchor::Center
    }
}

/// Margins of an overlay from the terminal edges.
#[derive(PartialEq, Eq, Structural, Clone, Copy, Debug)]
pub struct OverlayMargin {
    pub top: usize,
    pub right: usize,
    pub bottom: usize,
    pub left: usize,
}

impl Default for OverlayMargin {
    fn default() -> (m: Self)
        ensures
            m == (OverlayMargin { top: 0, right: 0, bottom: 0, left: 0 }),
    {
        OverlayMargin { top: 0, right: 0, bottom: 0, left: 0 }
    }
}

impl OverlayMargin {
    /// The same margin on all four sides.
    pub fn uniform(value: usize) -> (m: Self)
        ensures
            m == (OverlayMargin { top: value, right: value, bottom: value, left: value }),
    {
        OverlayMargin { top: value, right: value, bottom: value, left: value }
    }
}

/// The resolved placement of an overlay.
#[derive(PartialEq, Eq, Structural, Clone, Copy, Debug)]
pub struct OverlayLayout {
    pub width: usize,
    pub row: usize,
    pub col: usize,
    pub max_height: Option<usize>,
}

/// `a - b`, or 0 where `b` is larger.
pub open spec fn sat_sub(a: nat, b: nat) -> nat {
    if a >= b {
        (a - b) as nat
    } else {
        0
    }
}

/// The row an overlay of `height` rows takes for an anchor, in the
/// `avail_height` rows below `margin_top`: centred, at the top, or at the
/// bottom.
pub open spec fn anchor_row(anchor: OverlayAnchor, height: nat, avail_height: nat, margin_top: nat) -> nat {
    match anchor {
        OverlayAnchor::Center | OverlayAnchor::LeftCenter | OverlayAnchor::RightCenter => margin_top + sat_sub(
            avail_height,
            height,
        ) / 2,
        OverlayAnchor::TopLeft | OverlayAnchor::TopCenter | OverlayAnchor::TopRight => margin_top,
        OverlayAnchor::BottomLeft | OverlayAnchor::BottomCenter | OverlayAnchor::BottomRight => margin_top
            + sat_sub(avail_height, height),
    }
}

/// The column an overlay of `width` columns takes for an anchor, in the
/// `avail_width` columns right of `margin_left`: centred, at the left, or at
/// the right.
pub open spec fn anchor_col(anchor: OverlayAnchor, width: nat, avail_width: nat, margin_left: nat) -> nat {
    match anchor {
        OverlayAnchor::Center | OverlayAnchor::TopCenter | OverlayAnchor::BottomCenter => margin_left + sat_sub(
            avail_width,
            width,
        ) / 2,
        OverlayAnchor::TopLeft | OverlayAnchor::LeftCenter | OverlayAnchor::BottomLeft => margin_left,
        OverlayAnchor::TopRight | OverlayAnchor::RightCenter | OverlayAnchor::BottomRight => margin_left
            + sat_sub(avail_width, width),
    }
}

/// The row of an overlay of `height` rows placed by `anchor`.
pub fn resolve_anchor_row(anchor: OverlayAnchor, height: usize, avail_height: usize, margin_top: usize) -> (r: usize)
    requires
        margin_top + avail_height <= usize::MAX,
    ensures
        r == anchor_row(anchor, height as nat, avail_height as nat, margin_top as nat),
{
    let free = if avail_height >= height { avail_height - height } else { 0 };
    match anchor {
        OverlayAnchor::Center | OverlayAnchor::LeftCenter | OverlayAnchor::RightCenter => margin_top + free / 2,
        OverlayAnchor::TopLeft | OverlayAnchor::TopCenter | OverlayAnchor::TopRight => margin_top,
        OverlayAnchor::BottomLeft | OverlayAnchor::BottomCenter | OverlayAnchor::BottomRight => margin_top + free,
    }
}

/// The column of an overlay of `width` columns placed by `anchor`.
pub fn resolve_anchor_col(anchor: OverlayAnchor, width: usize, avail_width: usize, margin_left: usize) -> (r: usize)
    requires
        margin_left + avail_width <= usize::MAX,
    ensures
        r == anchor_col(anchor, width as nat, avail_width as nat, margin_left as nat),
{
    let free = if avail_width >= width { avail_width - width } else { 0 };
    match anchor {
        OverlayAnchor::Center | OverlayAnchor::TopCenter | OverlayAnchor::BottomCenter => margin_left + free / 2,
        OverlayAnchor::TopLeft | OverlayAnchor::LeftCenter | OverlayAnchor::BottomLeft => margin_left,
        OverlayAnchor::TopRight | OverlayAnchor::RightCenter | OverlayAnchor::BottomRight => margin_left + free,
    }
}

} // verus!
