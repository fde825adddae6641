//! The compiled-in catalog of supported physical layouts, offered to the
//! validator as target shapes and to host front ends for display.  Not
//! user-extensible.

use vstd::prelude::*;

use crate::layout::LayoutShape;

verus! {

/// One supported physical layout: its display name, dimensions, knob count,
/// and a short human description.
#[derive(Clone, PartialEq, Eq, Debug)]
pub struct KeyboardLayoutInfo {
    pub name: String,
    pub rows: u8,
    pub columns: u8,
    pub knobs: u8,
    pub description: String,
}

impl KeyboardLayoutInfo {
    /// The physical shape this catalog entry describes.
    pub open spec fn shape_spec(self) -> LayoutShape {
        LayoutShape { rows: self.rows, columns: self.columns, knobs: self.knobs }
    }

    /// The physical shape this catalog entry describes.
    pub fn shape(&self) -> (s: LayoutShape)
        ensures
            s == self.shape_spec(),
    {
        LayoutShape { rows: self.rows, columns: self.columns, knobs: self.knobs }
    }
}

/// The fixed list of layouts the supported chipset family ships in, from the
/// most common model down.
pub fn supported_layouts() -> (r: Vec<KeyboardLayoutInfo>)
    ensures
        r@.len() == 5,
        r@[0].name@ == "3×4 with 2 knobs (Bluetooth)"@ && r@[0].rows == 3 && r@[0].columns == 4
            && r@[0].knobs == 2,
        r@[1].name@ == "3×3 with 2 knobs"@ && r@[1].rows == 3 && r@[1].columns == 3 && r@[1].knobs
            == 2,
        r@[2].name@ == "3×2 with 1 knob"@ && r@[2].rows == 2 && r@[2].columns == 3 && r@[2].knobs
            == 1,
        r@[3].name@ == "3×1 with 1 knob"@ && r@[3].rows == 1 && r@[3].columns == 3 && r@[3].knobs
            == 1,
        r@[4].name@ == "4×1 without knobs"@ && r@[4].rows == 1 && r@[4].columns == 4 && r@[4].knobs
            == 0,
{
    let mut r: Vec<KeyboardLayoutInfo> = Vec::new();
    r.push(
        KeyboardLayoutInfo {
            name: "3×4 with 2 knobs (Bluetooth)".to_owned(),
            rows: 3,
            columns: 4,
            knobs: 2,
            description: "Most common Bluetooth model with two rotary encoders".to_owned(),
        },
    );
    r.push(
        KeyboardLayoutInfo {
            name: "3×3 with 2 knobs".to_owned(),
            rows: 3,
            columns: 3,
            knobs: 2,
            description: "Compact grid with dual knobs".to_owned(),
        },
    );
    r.push(
        KeyboardLayoutInfo {
            name: "3×2 with 1 knob".to_owned(),
            rows: 2,
            columns: 3,
            knobs: 1,
            description: "Six-key layout with a single encoder".to_owned(),
        },
    );
    r.push(
        KeyboardLayoutInfo {
            name: "3×1 with 1 knob".to_owned(),
            rows: 1,
            columns: 3,
            knobs: 1,
            description: "Three keys plus knob (limited modifiers after first chord)".to_owned(),
        },
    );
    r.push(
        KeyboardLayoutInfo {
            name: "4×1 without knobs".to_owned(),
            rows: 1,
            columns: 4,
            knobs: 0,
            description: "Straight row of four keys".to_owned(),
        },
    );
    r
}

} // verus!
