use vstd::prelude::*;

verus! {

/// Where a rectangle is anchored, on both axes at once.
#[derive(Debug, Clone, Copy, Default, PartialEq, Eq, Hash, Structural)]
pub enum Alignment {
    Center,
    Top,
    Left,
    Right,
    Bottom,
    #[default]
    TopLeft,
    TopRight,
    BottomLeft,
    BottomRight,
}

/// Where a rectangle is anchored on one axis.
#[derive(Debug, Clone, Copy, PartialEq, Eq, Hash, Structural)]
pub enum AlignmentSingle {
    Start,
    Center,
    End,
}

impl Alignment {
    pub open spec fn spec_x_axis(self) -> AlignmentSingle {
        match self {
            Alignment::TopLeft | Alignment::Left | Alignment::BottomLeft => AlignmentSingle::Start,
            Alignment::Top | Alignment::Center | Alignment::Bottom => AlignmentSingle::Center,
            Alignment::TopRight | Alignment::Right | Alignment::BottomRight => AlignmentSingle::End,
        }
    }

    pub open spec fn spec_y_axis(self) -> AlignmentSingle {
        match self {
            Alignment::TopLeft | Alignment::Top | Alignment::TopRight => AlignmentSingle::Start,
            Alignment::Left | Alignment::Center | Alignment::Right => AlignmentSingle::Center,
            Alignment::BottomLeft | Alignment::Bottom | Alignment::BottomRight => {
                AlignmentSingle::End
            },
        }
    }

    /// The horizontal part of the alignment: left, center or right.
    pub fn x_axis(&self) -> (r: AlignmentSingle)
        ensures
            r == self.spec_x_axis(),
    {
        match self {
            Alignment::TopLeft | Alignment::Left | Alignment::BottomLeft => AlignmentSingle::Start,
            Alignment::Top | Alignment::Center | Alignment::Bottom => AlignmentSingle::Center,
            Alignment::TopRight | Alignment::Right | Alignment::BottomRight => AlignmentSingle::End,
        }
    }

    /// The vertical part of the alignment: top, center or bottom.
    pub fn y_axis(&self) -> (r: AlignmentSingle)
        ensures
            r == self.spec_y_axis(),
    {
        match self {
            Alignment::TopLeft | Alignment::Top | Alignment::TopRight => AlignmentSingle::Start,
            Alignment::Left | Alignment::Center | Alignment::Right => AlignmentSingle::Center,
            Alignment::BottomLeft | Alignment::Bottom | Alignment::BottomRight => {
                AlignmentSingle::End
            },
        }
    }
}

/// A property of a box drawn behind an element.
pub struct Property {}

/// An effect applied to a rendered image.
pub struct ImageEffectStyle {}

/// An effect applied to mixed audio.
pub struct AudioEffectStyle {}

} // verus!
