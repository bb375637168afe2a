//! The display options an annotation can set on a signal.

use vstd::prelude::*;

verus! {

/// One resolved display option of a signal.
#[derive(Eq, PartialEq, Clone, Copy, Debug, Structural)]
pub enum DisplayOption {
    Color(DisplayColor),
    Format(DisplayFormat),
    Omit,
}

/// The colors a trace can be drawn in.
#[derive(Eq, PartialEq, Copy, Clone, Debug, Structural)]
pub enum DisplayColor {
    Normal,
    Red,
    Orange,
    Yellow,
    Green,
    Blue,
    Indigo,
    Violet,
    Cycle,
}

/// The numeric formats a value can be shown in.
#[derive(Eq, PartialEq, Copy, Clone, Debug, Structural)]
pub enum DisplayFormat {
    Hex,
    Decimal,
    SignedDecimal,
    Binary,
}

impl DisplayColor {
    /// The name of the color in the viewer's menu.
    pub open spec fn spec_label(self) -> Seq<char> {
        match self {
            DisplayColor::Normal => "Normal"@,
            DisplayColor::Red => "Red"@,
            DisplayColor::Orange => "Orange"@,
            DisplayColor::Yellow => "Yellow"@,
            DisplayColor::Green => "Green"@,
            DisplayColor::Blue => "Blue"@,
            DisplayColor::Indigo => "Indigo"@,
            DisplayColor::Violet => "Violet"@,
            DisplayColor::Cycle => "Cycle"@,
        }
    }

    /// The name of the color as the viewer's menu spells it.
    pub fn label(&self) -> (text: &'static str)
        ensures
            text@ == self.spec_label(),
    {
        match self {
            DisplayColor::Normal => "Normal",
            DisplayColor::Red => "Red",
            DisplayColor::Orange => "Orange",
            DisplayColor::Yellow => "Yellow",
            DisplayColor::Green => "Green",
            DisplayColor::Blue => "Blue",
            DisplayColor::Indigo => "Indigo",
            DisplayColor::Violet => "Violet",
            DisplayColor::Cycle => "Cycle",
        }
    }
}

impl DisplayFormat {
    /// The name of the format in the viewer's menu.
    pub open spec fn spec_label(self) -> Seq<char> {
        match self {
            DisplayFormat::Hex => "Hex"@,
            DisplayFormat::Decimal => "Decimal"@,
            DisplayFormat::SignedDecimal => "SignedDecimal"@,
            DisplayFormat::Binary => "Binary"@,
        }
    }

    /// The name of the format as the viewer's menu spells it.
    pub fn label(&self) -> (text: &'static str)
        ensures
            text@ == self.spec_label(),
    {
        match self {
            DisplayFormat::Hex => "Hex",
            DisplayFormat::Decimal => "Decimal",
            DisplayFormat::SignedDecimal => "SignedDecimal",
            DisplayFormat::Binary => "Binary",
        }
    }
}

} // verus!
