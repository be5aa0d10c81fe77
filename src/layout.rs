use vstd::prelude::*;

verus! {

/// Where a node's text sits inside its rectangle.
#[derive(Clone, Copy, Debug, PartialEq, Eq, Structural, Hash)]
pub enum TextPos {
    TopRight,
    TopLeft,
    BottomRight,
    BottomLeft,
    Center,
}

/// Placement along the main axis of a flex container.
#[derive(Clone, Copy, Debug, PartialEq, Eq, Structural, Hash)]
pub enum JustifyContent {
    FlexStart,
    FlexEnd,
    Center,
}

/// Placement along the cross axis of a flex container.
#[derive(Clone, Copy, Debug, PartialEq, Eq, Structural, Hash)]
pub enum AlignItems {
    FlexStart,
    FlexEnd,
    Center,
}

/// Which side of its owner a tooltip appears on.
#[derive(Clone, Copy, Debug, PartialEq, Eq, Structural, Hash)]
pub enum TooltipPosition {
    Top,
    Bottom,
}

/// The flex placement that puts text at `p`.
pub open spec fn style_of(p: TextPos) -> (JustifyContent, AlignItems) {
    match p {
        TextPos::TopRight => (JustifyContent::FlexEnd, AlignItems::FlexStart),
        TextPos::TopLeft => (JustifyContent::FlexStart, AlignItems::FlexStart),
        TextPos::BottomRight => (JustifyContent::FlexEnd, AlignItems::FlexEnd),
        TextPos::BottomLeft => (JustifyContent::FlexStart, AlignItems::FlexEnd),
        TextPos::Center => (JustifyContent::Center, AlignItems::Center),
    }
}

/// A flex placement that some text position produces.
pub open spec fn is_text_style(style: (JustifyContent, AlignItems)) -> bool {
    exists|p: TextPos| style_of(p) == style
}

/// The flex placement for a text position.
pub fn pos_to_style(text_pos: TextPos) -> (r: (JustifyContent, AlignItems))
    ensures
        r == style_of(text_pos),
{
    match text_pos {
        TextPos::TopRight => (JustifyContent::FlexEnd, AlignItems::FlexStart),
        TextPos::TopLeft => (JustifyContent::FlexStart, AlignItems::FlexStart),
        TextPos::BottomRight => (JustifyContent::FlexEnd, AlignItems::FlexEnd),
        TextPos::BottomLeft => (JustifyContent::FlexStart, AlignItems::FlexEnd),
        TextPos::Center => (JustifyContent::Center, AlignItems::Center),
    }
}

/// The text position that a flex placement stands for.
pub fn style_to_pos(style: (JustifyContent, AlignItems)) -> (r: TextPos)
    requires
        is_text_style(style),
    ensures
        style_of(r) == style,
{
    match style {
        (JustifyContent::FlexEnd, AlignItems::FlexStart) => TextPos::TopRight,
        (JustifyContent::FlexStart, AlignItems::FlexStart) => TextPos::TopLeft,
        (JustifyContent::FlexEnd, AlignItems::FlexEnd) => TextPos::BottomRight,
        (JustifyContent::FlexStart, AlignItems::FlexEnd) => TextPos::BottomLeft,
        _ => {
            let ghost p = choose|p: TextPos| style_of(p) == style;
            assert(style_of(p) == style);
            TextPos::Center
        },
    }
}

/// Reading back the placement of a text position gives that position again.
pub proof fn lemma_style_round_trip(p: TextPos)
    ensures
        is_text_style(style_of(p)),
        forall|q: TextPos| style_of(q) == style_of(p) ==> q == p,
{
    assert(style_of(p) == style_of(p));
}

/// The vertical offset, in pixels, of a tooltip from its owner.
pub fn tooltip_top_offset(position: TooltipPosition) -> (r: i32)
    ensures
        r == (match position {
            TooltipPosition::Top => -30i32,
            TooltipPosition::Bottom => 30i32,
        }),
{
    match position {
        TooltipPosition::Top => -30,
        TooltipPosition::Bottom => 30,
    }
}

} // verus!
