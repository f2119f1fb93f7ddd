use vstd::prelude::*;

verus! {

/// Identifier of a tool that can be attached to a creature in play.
#[derive(Clone, Copy, Debug, PartialEq, Eq, Hash, Structural)]
pub enum ToolId {
    A2147GiantCape,
    A2148RockyHelmet,
}

/// The identifier as it is written in the source.
pub open spec fn tool_label(id: ToolId) -> Seq<char> {
    match id {
        ToolId::A2147GiantCape => "A2147GiantCape"@,
        ToolId::A2148RockyHelmet => "A2148RockyHelmet"@,
    }
}

/// Hit points that a creature gains while the tool is attached.
pub open spec fn tool_hp_bonus(id: ToolId) -> u32 {
    match id {
        ToolId::A2147GiantCape => 20u32,
        ToolId::A2148RockyHelmet => 0u32,
    }
}

impl ToolId {
    /// The identifier as it is written in the source.
    pub fn label(self) -> (r: &'static str)
        ensures
            r@ == tool_label(self),
    {
        match self {
            ToolId::A2147GiantCape => "A2147GiantCape",
            ToolId::A2148RockyHelmet => "A2148RockyHelmet",
        }
    }

    /// Hit points that a creature gains while the tool is attached.
    pub fn hp_bonus(self) -> (r: u32)
        ensures
            r == tool_hp_bonus(self),
    {
        match self {
            ToolId::A2147GiantCape => 20,
            ToolId::A2148RockyHelmet => 0,
        }
    }
}

} // verus!
