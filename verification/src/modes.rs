//! The editor's modes, and the side of a voxel that a ray hits.
use vstd::prelude::*;

verus! {

/// What the editing tools work on.
#[derive(Clone, Copy, Debug, PartialEq, Eq, Structural)]
pub enum ToolMode {
    Palette,
    Point,
    Pattern,
}

/// Whether a brush adds voxels or removes them.
#[derive(Clone, Copy, Debug, PartialEq, Eq, Structural)]
pub enum ToolAttachMode {
    Add,
    Remove,
}

/// The number that stands for an attach mode in stored settings.
pub open spec fn attach_mode_number(mode: ToolAttachMode) -> i32 {
    match mode {
        ToolAttachMode::Add => 0,
        ToolAttachMode::Remove => 1,
    }
}

/// The attach mode a stored number stands for: 1 removes, any other adds.
pub open spec fn attach_mode_of(value: i32) -> ToolAttachMode {
    if value == 1 {
        ToolAttachMode::Remove
    } else {
        ToolAttachMode::Add
    }
}

impl From<ToolAttachMode> for i32 {
    fn from(mode: ToolAttachMode) -> (r: i32) {
        match mode {
            ToolAttachMode::Add => 0,
            ToolAttachMode::Remove => 1,
        }
    }
}

impl vstd::std_specs::convert::FromSpecImpl<ToolAttachMode> for i32 {
    open spec fn obeys_from_spec() -> bool {
        true
    }

    open spec fn from_spec(mode: ToolAttachMode) -> i32 {
        attach_mode_number(mode)
    }
}

impl From<i32> for ToolAttachMode {
    fn from(value: i32) -> (r: ToolAttachMode) {
        match value {
            1 => ToolAttachMode::Remove,
            _ => ToolAttachMode::Add,
        }
    }
}

impl vstd::std_specs::convert::FromSpecImpl<i32> for ToolAttachMode {
    open spec fn obeys_from_spec() -> bool {
        true
    }

    open spec fn from_spec(value: i32) -> ToolAttachMode {
        attach_mode_of(value)
    }
}

/// What the node editor shows the graph of: nothing, a palette color, or a
/// shape.
#[derive(Clone, Copy, Debug, PartialEq, Eq, Structural)]
pub enum NodeContext {
    Empty,
    Color(u8),
    Shape(usize),
}

/// The side of a voxel.
#[derive(Clone, Copy, Debug, PartialEq, Eq, Hash, Structural)]
pub enum SideEnum {
    Top,
    Bottom,
    Left,
    Right,
    Front,
    Back,
}

/// Where one component of a surface normal lies: above one half, below minus
/// one half, or in between.
#[derive(Clone, Copy, Debug, PartialEq, Eq, Structural)]
pub enum AxisSign {
    Positive,
    Negative,
    Within,
}

/// The side a normal points at. The vertical component decides first, then
/// the horizontal one, then the depth; a normal with no clear direction keeps
/// the side that was known before.
pub open spec fn side_of(current: SideEnum, x: AxisSign, y: AxisSign, z: AxisSign) -> SideEnum {
    if y == AxisSign::Positive {
        SideEnum::Bottom
    } else if y == AxisSign::Negative {
        SideEnum::Top
    } else if x == AxisSign::Positive {
        SideEnum::Left
    } else if x == AxisSign::Negative {
        SideEnum::Right
    } else if z == AxisSign::Positive {
        SideEnum::Back
    } else if z == AxisSign::Negative {
        SideEnum::Front
    } else {
        current
    }
}

/// The side that a hit on a surface with the given normal lands on, from the
/// normal's components each placed against one half.
pub fn compute_side(current: SideEnum, x: AxisSign, y: AxisSign, z: AxisSign) -> (r: SideEnum)
    ensures
        r == side_of(current, x, y, z),
{
    match y {
        AxisSign::Positive => SideEnum::Bottom,
        AxisSign::Negative => SideEnum::Top,
        AxisSign::Within => match x {
            AxisSign::Positive => SideEnum::Left,
            AxisSign::Negative => SideEnum::Right,
            AxisSign::Within => match z {
                AxisSign::Positive => SideEnum::Back,
                AxisSign::Negative => SideEnum::Front,
                AxisSign::Within => current,
            },
        },
    }
}

/// Converting an attach mode to its number and back gives the mode again.
pub proof fn law_attach_mode_round_trip(mode: ToolAttachMode)
    ensures
        attach_mode_of(attach_mode_number(mode)) == mode,
{
}

} // verus!
