//! World positions, directions and the block kinds that redstone logic is built from.

use vstd::prelude::*;
use crate::text::str_eq;

verus! {

/// A block position inside a plot.
#[derive(Clone, Copy, Debug, PartialEq, Eq, Structural, Hash)]
pub struct BlockPos {
    pub x: i32,
    pub y: u32,
    pub z: i32,
}

/// One of the six faces of a block.
#[derive(Clone, Copy, Debug, PartialEq, Eq, Structural, Hash)]
pub enum BlockFace {
    Bottom,
    Top,
    North,
    South,
    West,
    East,
}

/// One of the four horizontal directions.
#[derive(Clone, Copy, Debug, PartialEq, Eq, Structural, Hash)]
pub enum BlockDirection {
    North,
    South,
    East,
    West,
}

/// 0 for a set flag and 1 for a cleared one, as block states count them.
pub open spec fn flag_id(set: bool) -> u32 {
    if set {
        0
    } else {
        1
    }
}

fn flag(set: bool) -> (id: u32)
    ensures
        id == flag_id(set),
        id < 2,
{
    if set {
        0
    } else {
        1
    }
}

impl BlockPos {
    pub fn new(x: i32, y: u32, z: i32) -> (pos: BlockPos)
        ensures
            pos == (BlockPos { x, y, z }),
    {
        BlockPos { x, y, z }
    }

    /// The position one step away through `face`; a step below height 0 stays at 0.
    pub open spec fn spec_offset(self, face: BlockFace) -> BlockPos {
        match face {
            BlockFace::Bottom => BlockPos {
                x: self.x,
                y: if self.y == 0 { 0u32 } else { (self.y - 1) as u32 },
                z: self.z,
            },
            BlockFace::Top => BlockPos { x: self.x, y: (self.y + 1) as u32, z: self.z },
            BlockFace::North => BlockPos { x: self.x, y: self.y, z: (self.z - 1) as i32 },
            BlockFace::South => BlockPos { x: self.x, y: self.y, z: (self.z + 1) as i32 },
            BlockFace::West => BlockPos { x: (self.x - 1) as i32, y: self.y, z: self.z },
            BlockFace::East => BlockPos { x: (self.x + 1) as i32, y: self.y, z: self.z },
        }
    }

    /// Whether the step through `face` stays inside the coordinate range.
    pub open spec fn can_offset(self, face: BlockFace) -> bool {
        match face {
            BlockFace::Bottom => true,
            BlockFace::Top => self.y < u32::MAX,
            BlockFace::North => self.z > i32::MIN,
            BlockFace::South => self.z < i32::MAX,
            BlockFace::West => self.x > i32::MIN,
            BlockFace::East => self.x < i32::MAX,
        }
    }

    pub fn offset(self, face: BlockFace) -> (pos: BlockPos)
        requires
            self.can_offset(face),
        ensures
            pos == self.spec_offset(face),
    {
        match face {
            BlockFace::Bottom => BlockPos::new(self.x, if self.y == 0 { 0 } else { self.y - 1 }, self.z),
            BlockFace::Top => BlockPos::new(self.x, self.y + 1, self.z),
            BlockFace::North => BlockPos::new(self.x, self.y, self.z - 1),
            BlockFace::South => BlockPos::new(self.x, self.y, self.z + 1),
            BlockFace::West => BlockPos::new(self.x - 1, self.y, self.z),
            BlockFace::East => BlockPos::new(self.x + 1, self.y, self.z),
        }
    }

    /// The componentwise maximum of two positions.
    pub fn max(self, other: BlockPos) -> (pos: BlockPos)
        ensures
            pos.x == if self.x >= other.x { self.x } else { other.x },
            pos.y == if self.y >= other.y { self.y } else { other.y },
            pos.z == if self.z >= other.z { self.z } else { other.z },
    {
        BlockPos {
            x: if self.x >= other.x { self.x } else { other.x },
            y: if self.y >= other.y { self.y } else { other.y },
            z: if self.z >= other.z { self.z } else { other.z },
        }
    }

    /// The componentwise minimum of two positions.
    pub fn min(self, other: BlockPos) -> (pos: BlockPos)
        ensures
            pos.x == if self.x <= other.x { self.x } else { other.x },
            pos.y == if self.y <= other.y { self.y } else { other.y },
            pos.z == if self.z <= other.z { self.z } else { other.z },
    {
        BlockPos {
            x: if self.x <= other.x { self.x } else { other.x },
            y: if self.y <= other.y { self.y } else { other.y },
            z: if self.z <= other.z { self.z } else { other.z },
        }
    }
}

impl core::ops::Sub for BlockPos {
    type Output = BlockPos;

    /// The componentwise difference of two positions.
    fn sub(self, rhs: BlockPos) -> (pos: BlockPos) {
        BlockPos { x: self.x - rhs.x, y: self.y - rhs.y, z: self.z - rhs.z }
    }
}

impl vstd::std_specs::ops::SubSpecImpl for BlockPos {
    open spec fn obeys_sub_spec() -> bool {
        true
    }

    /// No coordinate of the difference leaves its range.
    open spec fn sub_req(self, rhs: BlockPos) -> bool {
        &&& i32::MIN <= self.x - rhs.x <= i32::MAX
        &&& self.y >= rhs.y
        &&& i32::MIN <= self.z - rhs.z <= i32::MAX
    }

    open spec fn sub_spec(self, rhs: BlockPos) -> BlockPos {
        BlockPos { x: (self.x - rhs.x) as i32, y: (self.y - rhs.y) as u32, z: (self.z - rhs.z) as i32 }
    }
}

impl BlockDirection {
    pub open spec fn spec_opposite(self) -> BlockDirection {
        match self {
            BlockDirection::North => BlockDirection::South,
            BlockDirection::South => BlockDirection::North,
            BlockDirection::East => BlockDirection::West,
            BlockDirection::West => BlockDirection::East,
        }
    }

    pub fn opposite(self) -> (d: BlockDirection)
        ensures
            d == self.spec_opposite(),
    {
        match self {
            BlockDirection::North => BlockDirection::South,
            BlockDirection::South => BlockDirection::North,
            BlockDirection::East => BlockDirection::West,
            BlockDirection::West => BlockDirection::East,
        }
    }

    pub fn block_face(self) -> (face: BlockFace)
        ensures
            face == match self {
                BlockDirection::North => BlockFace::North,
                BlockDirection::South => BlockFace::South,
                BlockDirection::East => BlockFace::East,
                BlockDirection::West => BlockFace::West,
            },
    {
        match self {
            BlockDirection::North => BlockFace::North,
            BlockDirection::South => BlockFace::South,
            BlockDirection::East => BlockFace::East,
            BlockDirection::West => BlockFace::West,
        }
    }

    pub fn values() -> (all: [BlockDirection; 4])
        ensures
            all@ == seq![
                BlockDirection::North,
                BlockDirection::South,
                BlockDirection::East,
                BlockDirection::West,
            ],
    {
        [BlockDirection::North, BlockDirection::South, BlockDirection::East, BlockDirection::West]
    }

    /// The number a direction has in a block state.
    pub open spec fn spec_id(self) -> u32 {
        match self {
            BlockDirection::North => 0,
            BlockDirection::South => 1,
            BlockDirection::West => 2,
            BlockDirection::East => 3,
        }
    }

    pub fn get_id(self) -> (id: u32)
        ensures
            id == self.spec_id(),
            id < 4,
    {
        match self {
            BlockDirection::North => 0,
            BlockDirection::South => 1,
            BlockDirection::West => 2,
            BlockDirection::East => 3,
        }
    }

    /// The direction with the number `id`.
    pub open spec fn spec_from_id(id: u32) -> BlockDirection {
        if id == 0 {
            BlockDirection::North
        } else if id == 1 {
            BlockDirection::South
        } else if id == 2 {
            BlockDirection::West
        } else {
            BlockDirection::East
        }
    }

    pub fn from_id(id: u32) -> (d: BlockDirection)
        requires
            id < 4,
        ensures
            d == Self::spec_from_id(id),
            d.spec_id() == id,
    {
        if id == 0 {
            BlockDirection::North
        } else if id == 1 {
            BlockDirection::South
        } else if id == 2 {
            BlockDirection::West
        } else {
            BlockDirection::East
        }
    }

    /// Reads a direction from its lower-case name; any other text means west.
    pub fn from_str(name: &str) -> (d: BlockDirection)
        ensures
            d == Self::named(name@),
    {
        if str_eq(name, "north") {
            BlockDirection::North
        } else if str_eq(name, "south") {
            BlockDirection::South
        } else if str_eq(name, "east") {
            BlockDirection::East
        } else {
            BlockDirection::West
        }
    }

    /// The direction that lower-case text names; west for any other text.
    pub open spec fn named(name: Seq<char>) -> BlockDirection {
        if name == "north"@ {
            BlockDirection::North
        } else if name == "south"@ {
            BlockDirection::South
        } else if name == "east"@ {
            BlockDirection::East
        } else {
            BlockDirection::West
        }
    }

    /// A quarter turn clockwise, seen from above.
    pub fn rotate(self) -> (d: BlockDirection)
        ensures
            d == match self {
                BlockDirection::North => BlockDirection::East,
                BlockDirection::East => BlockDirection::South,
                BlockDirection::South => BlockDirection::West,
                BlockDirection::West => BlockDirection::North,
            },
    {
        match self {
            BlockDirection::North => BlockDirection::East,
            BlockDirection::East => BlockDirection::South,
            BlockDirection::South => BlockDirection::West,
            BlockDirection::West => BlockDirection::North,
        }
    }

    /// A quarter turn counter-clockwise, seen from above.
    pub fn rotate_ccw(self) -> (d: BlockDirection)
        ensures
            d == match self {
                BlockDirection::North => BlockDirection::West,
                BlockDirection::West => BlockDirection::South,
                BlockDirection::South => BlockDirection::East,
                BlockDirection::East => BlockDirection::North,
            },
    {
        match self {
            BlockDirection::North => BlockDirection::West,
            BlockDirection::West => BlockDirection::South,
            BlockDirection::South => BlockDirection::East,
            BlockDirection::East => BlockDirection::North,
        }
    }
}

impl Default for BlockDirection {
    fn default() -> (d: BlockDirection)
        ensures
            d == BlockDirection::West,
    {
        BlockDirection::West
    }
}

impl BlockFace {
    pub fn from_id(id: u32) -> (face: BlockFace)
        requires
            id < 6,
        ensures
            face == if id == 0 {
                BlockFace::Bottom
            } else if id == 1 {
                BlockFace::Top
            } else if id == 2 {
                BlockFace::North
            } else if id == 3 {
                BlockFace::South
            } else if id == 4 {
                BlockFace::West
            } else {
                BlockFace::East
            },
    {
        if id == 0 {
            BlockFace::Bottom
        } else if id == 1 {
            BlockFace::Top
        } else if id == 2 {
            BlockFace::North
        } else if id == 3 {
            BlockFace::South
        } else if id == 4 {
            BlockFace::West
        } else {
            BlockFace::East
        }
    }

    pub fn values() -> (all: [BlockFace; 6])
        ensures
            all@ == seq![
                BlockFace::Top,
                BlockFace::Bottom,
                BlockFace::North,
                BlockFace::South,
                BlockFace::East,
                BlockFace::West,
            ],
    {
        [
            BlockFace::Top,
            BlockFace::Bottom,
            BlockFace::North,
            BlockFace::South,
            BlockFace::East,
            BlockFace::West,
        ]
    }

    pub fn is_horizontal(self) -> (b: bool)
        ensures
            b == !(self == BlockFace::Top || self == BlockFace::Bottom),
    {
        match self {
            BlockFace::North | BlockFace::South | BlockFace::East | BlockFace::West => true,
            _ => false,
        }
    }

    /// The direction of a horizontal face; the two vertical faces give west.
    pub fn to_direction(self) -> (d: BlockDirection)
        ensures
            d == match self {
                BlockFace::North => BlockDirection::North,
                BlockFace::South => BlockDirection::South,
                BlockFace::East => BlockDirection::East,
                _ => BlockDirection::West,
            },
    {
        match self {
            BlockFace::North => BlockDirection::North,
            BlockFace::South => BlockDirection::South,
            BlockFace::East => BlockDirection::East,
            BlockFace::West => BlockDirection::West,
            _ => BlockDirection::West,
        }
    }
}


/// How a piece of redstone dust connects on one side.
#[derive(Clone, Copy, Debug, PartialEq, Eq, Structural, Hash)]
pub enum RedstoneWireSide {
    Up,
    Side,
    Unconnected,
}

impl RedstoneWireSide {
    pub open spec fn spec_id(self) -> u32 {
        match self {
            RedstoneWireSide::Up => 0,
            RedstoneWireSide::Side => 1,
            RedstoneWireSide::Unconnected => 2,
        }
    }

    pub open spec fn spec_from_id(id: u32) -> RedstoneWireSide {
        if id == 0 {
            RedstoneWireSide::Up
        } else if id == 1 {
            RedstoneWireSide::Side
        } else {
            RedstoneWireSide::Unconnected
        }
    }

    pub fn get_id(self) -> (id: u32)
        ensures
            id == self.spec_id(),
            id < 3,
    {
        match self {
            RedstoneWireSide::Up => 0,
            RedstoneWireSide::Side => 1,
            RedstoneWireSide::Unconnected => 2,
        }
    }

    pub fn from_id(id: u32) -> (side: RedstoneWireSide)
        requires
            id < 3,
        ensures
            side == Self::spec_from_id(id),
            side.spec_id() == id,
    {
        if id == 0 {
            RedstoneWireSide::Up
        } else if id == 1 {
            RedstoneWireSide::Side
        } else {
            RedstoneWireSide::Unconnected
        }
    }
}

impl RedstoneWireSide {
    /// The connection that lower-case text names; unconnected for any other text.
    pub open spec fn named(name: Seq<char>) -> RedstoneWireSide {
        if name == "up"@ {
            RedstoneWireSide::Up
        } else if name == "side"@ {
            RedstoneWireSide::Side
        } else {
            RedstoneWireSide::Unconnected
        }
    }

    pub fn from_str(name: &str) -> (side: RedstoneWireSide)
        ensures
            side == Self::named(name@),
    {
        if str_eq(name, "up") {
            RedstoneWireSide::Up
        } else if str_eq(name, "side") {
            RedstoneWireSide::Side
        } else {
            RedstoneWireSide::Unconnected
        }
    }
}

/// A piece of redstone dust: its four connections and its power, 0 to 15.
#[derive(Clone, Copy, Debug, PartialEq, Eq, Structural, Hash)]
pub struct RedstoneWire {
    pub north: RedstoneWireSide,
    pub south: RedstoneWireSide,
    pub east: RedstoneWireSide,
    pub west: RedstoneWireSide,
    pub power: u8,
}

impl RedstoneWire {
    pub fn new(
        north: RedstoneWireSide,
        south: RedstoneWireSide,
        east: RedstoneWireSide,
        west: RedstoneWireSide,
        power: u8,
    ) -> (wire: RedstoneWire)
        ensures
            wire == (RedstoneWire { north, south, east, west, power }),
    {
        RedstoneWire { north, south, east, west, power }
    }

    /// The place of this dust among the states of redstone dust.
    pub open spec fn spec_offset(self) -> int {
        self.east.spec_id() * 432 + self.north.spec_id() * 144 + self.power * 9
            + self.south.spec_id() * 3 + self.west.spec_id()
    }

    pub fn state_offset(self) -> (n: u32)
        ensures
            n == self.spec_offset(),
            n <= 3590,
    {
        let east: u32 = self.east.get_id();
        let north: u32 = self.north.get_id();
        let power: u32 = self.power as u32;
        let south: u32 = self.south.get_id();
        let west: u32 = self.west.get_id();
        east * 432 + north * 144 + power * 9 + south * 3 + west
    }

    /// Dust that connects nowhere: the form that serves as a four-bit display.
    pub open spec fn is_dot(self) -> bool {
        &&& self.north == RedstoneWireSide::Unconnected
        &&& self.south == RedstoneWireSide::Unconnected
        &&& self.east == RedstoneWireSide::Unconnected
        &&& self.west == RedstoneWireSide::Unconnected
    }
}

impl Default for RedstoneWire {
    fn default() -> (wire: RedstoneWire)
        ensures
            wire.is_dot(),
            wire.power == 0,
    {
        RedstoneWire {
            north: RedstoneWireSide::Unconnected,
            south: RedstoneWireSide::Unconnected,
            east: RedstoneWireSide::Unconnected,
            west: RedstoneWireSide::Unconnected,
            power: 0,
        }
    }
}

/// The two ways a comparator combines its back and side inputs.
#[derive(Clone, Copy, Debug, PartialEq, Eq, Structural, Hash)]
pub enum ComparatorMode {
    Compare,
    Subtract,
}

impl ComparatorMode {
    pub open spec fn spec_id(self) -> u32 {
        match self {
            ComparatorMode::Compare => 0,
            ComparatorMode::Subtract => 1,
        }
    }

    pub open spec fn spec_from_id(id: u32) -> ComparatorMode {
        if id == 0 {
            ComparatorMode::Compare
        } else {
            ComparatorMode::Subtract
        }
    }

    pub fn get_id(self) -> (id: u32)
        ensures
            id == self.spec_id(),
            id < 2,
    {
        match self {
            ComparatorMode::Compare => 0,
            ComparatorMode::Subtract => 1,
        }
    }

    pub fn from_id(id: u32) -> (mode: ComparatorMode)
        requires
            id < 2,
        ensures
            mode == Self::spec_from_id(id),
            mode.spec_id() == id,
    {
        if id == 0 {
            ComparatorMode::Compare
        } else {
            ComparatorMode::Subtract
        }
    }

    pub fn toggle(self) -> (mode: ComparatorMode)
        ensures
            mode != self,
    {
        match self {
            ComparatorMode::Compare => ComparatorMode::Subtract,
            ComparatorMode::Subtract => ComparatorMode::Compare,
        }
    }
}

impl ComparatorMode {
    /// The mode that lower-case text names; compare mode for any other text.
    pub open spec fn named(name: Seq<char>) -> ComparatorMode {
        if name == "subtract"@ {
            ComparatorMode::Subtract
        } else {
            ComparatorMode::Compare
        }
    }

    pub fn from_str(name: &str) -> (mode: ComparatorMode)
        ensures
            mode == Self::named(name@),
    {
        if str_eq(name, "subtract") {
            ComparatorMode::Subtract
        } else {
            ComparatorMode::Compare
        }
    }
}

#[derive(Clone, Copy, Debug, PartialEq, Eq, Structural, Hash)]
pub struct RedstoneComparator {
    pub facing: BlockDirection,
    pub mode: ComparatorMode,
    pub powered: bool,
}

impl RedstoneComparator {
    pub fn new(facing: BlockDirection, mode: ComparatorMode, powered: bool) -> (c: RedstoneComparator)
        ensures
            c == (RedstoneComparator { facing, mode, powered }),
    {
        RedstoneComparator { facing, mode, powered }
    }
}

impl RedstoneComparator {
    /// The place of this comparator among the comparator states.
    pub open spec fn spec_offset(self) -> int {
        self.facing.spec_id() * 4 + self.mode.spec_id() * 2 + flag_id(self.powered)
    }

    pub fn state_offset(self) -> (n: u32)
        ensures
            n == self.spec_offset(),
            n < 16,
    {
        let facing: u32 = self.facing.get_id();
        let mode: u32 = self.mode.get_id();
        facing * 4 + mode * 2 + flag(self.powered)
    }
}

impl Default for RedstoneComparator {
    fn default() -> (c: RedstoneComparator)
        ensures
            c == (RedstoneComparator {
                facing: BlockDirection::West,
                mode: ComparatorMode::Compare,
                powered: false,
            }),
    {
        RedstoneComparator {
            facing: BlockDirection::West,
            mode: ComparatorMode::Compare,
            powered: false,
        }
    }
}

/// A repeater; `delay` counts ticks, 1 to 4.
#[derive(Clone, Copy, Debug, PartialEq, Eq, Structural, Hash)]
pub struct RedstoneRepeater {
    pub delay: u8,
    pub facing: BlockDirection,
    pub locked: bool,
    pub powered: bool,
}

impl RedstoneRepeater {
    pub fn new(delay: u8, facing: BlockDirection, locked: bool, powered: bool) -> (r: RedstoneRepeater)
        ensures
            r == (RedstoneRepeater { delay, facing, locked, powered }),
    {
        RedstoneRepeater { delay, facing, locked, powered }
    }
}

impl RedstoneRepeater {
    /// The place of this repeater among the repeater states.
    pub open spec fn spec_offset(self) -> int {
        (self.delay - 1) * 16 + self.facing.spec_id() * 4 + flag_id(self.locked) * 2 + flag_id(
            self.powered,
        )
    }

    pub fn state_offset(self) -> (n: u32)
        requires
            self.delay >= 1,
        ensures
            n == self.spec_offset(),
            n <= 4080,
    {
        let delay: u32 = self.delay as u32;
        let facing: u32 = self.facing.get_id();
        let locked: u32 = flag(self.locked);
        (delay - 1) * 16 + facing * 4 + locked * 2 + flag(self.powered)
    }
}

impl Default for RedstoneRepeater {
    fn default() -> (r: RedstoneRepeater)
        ensures
            r == (RedstoneRepeater {
                delay: 1,
                facing: BlockDirection::West,
                locked: false,
                powered: false,
            }),
    {
        RedstoneRepeater { delay: 1, facing: BlockDirection::West, locked: false, powered: false }
    }
}

/// Where a lever sits on its supporting block.
#[derive(Clone, Copy, Debug, PartialEq, Eq, Structural, Hash)]
pub enum LeverFace {
    Floor,
    Wall,
    Ceiling,
}

impl LeverFace {
    pub open spec fn spec_id(self) -> u32 {
        match self {
            LeverFace::Floor => 0,
            LeverFace::Wall => 1,
            LeverFace::Ceiling => 2,
        }
    }

    pub open spec fn spec_from_id(id: u32) -> LeverFace {
        if id == 0 {
            LeverFace::Floor
        } else if id == 1 {
            LeverFace::Wall
        } else {
            LeverFace::Ceiling
        }
    }

    pub fn get_id(self) -> (id: u32)
        ensures
            id == self.spec_id(),
            id < 3,
    {
        match self {
            LeverFace::Floor => 0,
            LeverFace::Wall => 1,
            LeverFace::Ceiling => 2,
        }
    }

    pub fn from_id(id: u32) -> (face: LeverFace)
        requires
            id < 3,
        ensures
            face == Self::spec_from_id(id),
            face.spec_id() == id,
    {
        if id == 0 {
            LeverFace::Floor
        } else if id == 1 {
            LeverFace::Wall
        } else {
            LeverFace::Ceiling
        }
    }
}

impl LeverFace {
    /// The place that lower-case text names; the wall for any other text.
    pub open spec fn named(name: Seq<char>) -> LeverFace {
        if name == "floor"@ {
            LeverFace::Floor
        } else if name == "ceiling"@ {
            LeverFace::Ceiling
        } else {
            LeverFace::Wall
        }
    }

    pub fn from_str(name: &str) -> (face: LeverFace)
        ensures
            face == Self::named(name@),
    {
        if str_eq(name, "floor") {
            LeverFace::Floor
        } else if str_eq(name, "ceiling") {
            LeverFace::Ceiling
        } else {
            LeverFace::Wall
        }
    }
}

#[derive(Clone, Copy, Debug, PartialEq, Eq, Structural, Hash)]
pub struct Lever {
    pub face: LeverFace,
    pub facing: BlockDirection,
    pub powered: bool,
}

impl Lever {
    pub fn new(face: LeverFace, facing: BlockDirection, powered: bool) -> (lever: Lever)
        ensures
            lever == (Lever { face, facing, powered }),
    {
        Lever { face, facing, powered }
    }
}

impl Lever {
    /// The place of this lever among the lever states.
    pub open spec fn spec_offset(self) -> int {
        self.face.spec_id() * 8 + self.facing.spec_id() * 2 + flag_id(self.powered)
    }

    pub fn state_offset(self) -> (n: u32)
        ensures
            n == self.spec_offset(),
            n < 24,
    {
        let face: u32 = self.face.get_id();
        let facing: u32 = self.facing.get_id();
        face * 8 + facing * 2 + flag(self.powered)
    }
}

impl Default for Lever {
    fn default() -> (lever: Lever)
        ensures
            lever == (Lever { face: LeverFace::Wall, facing: BlockDirection::West, powered: false }),
    {
        Lever { face: LeverFace::Wall, facing: BlockDirection::West, powered: false }
    }
}

/// Where a button sits on its supporting block.
#[derive(Clone, Copy, Debug, PartialEq, Eq, Structural, Hash)]
pub enum ButtonFace {
    Floor,
    Wall,
    Ceiling,
}

impl ButtonFace {
    pub open spec fn spec_id(self) -> u32 {
        match self {
            ButtonFace::Floor => 0,
            ButtonFace::Wall => 1,
            ButtonFace::Ceiling => 2,
        }
    }

    pub open spec fn spec_from_id(id: u32) -> ButtonFace {
        if id == 0 {
            ButtonFace::Floor
        } else if id == 1 {
            ButtonFace::Wall
        } else {
            ButtonFace::Ceiling
        }
    }

    pub fn get_id(self) -> (id: u32)
        ensures
            id == self.spec_id(),
            id < 3,
    {
        match self {
            ButtonFace::Floor => 0,
            ButtonFace::Wall => 1,
            ButtonFace::Ceiling => 2,
        }
    }

    pub fn from_id(id: u32) -> (face: ButtonFace)
        requires
            id < 3,
        ensures
            face == Self::spec_from_id(id),
            face.spec_id() == id,
    {
        if id == 0 {
            ButtonFace::Floor
        } else if id == 1 {
            ButtonFace::Wall
        } else {
            ButtonFace::Ceiling
        }
    }
}

#[derive(Clone, Copy, Debug, PartialEq, Eq, Structural, Hash)]
pub struct StoneButton {
    pub face: ButtonFace,
    pub facing: BlockDirection,
    pub powered: bool,
}

impl StoneButton {
    pub fn new(face: ButtonFace, facing: BlockDirection, powered: bool) -> (button: StoneButton)
        ensures
            button == (StoneButton { face, facing, powered }),
    {
        StoneButton { face, facing, powered }
    }
}

/// Which half of its block space a trapdoor occupies.
#[derive(Clone, Copy, Debug, PartialEq, Eq, Structural, Hash)]
pub enum TrapdoorHalf {
    Top,
    Bottom,
}

impl TrapdoorHalf {
    pub open spec fn spec_id(self) -> u32 {
        match self {
            TrapdoorHalf::Top => 0,
            TrapdoorHalf::Bottom => 1,
        }
    }

    pub open spec fn spec_from_id(id: u32) -> TrapdoorHalf {
        if id == 0 {
            TrapdoorHalf::Top
        } else {
            TrapdoorHalf::Bottom
        }
    }

    pub fn get_id(self) -> (id: u32)
        ensures
            id == self.spec_id(),
            id < 2,
    {
        match self {
            TrapdoorHalf::Top => 0,
            TrapdoorHalf::Bottom => 1,
        }
    }

    pub fn from_id(id: u32) -> (half: TrapdoorHalf)
        requires
            id < 2,
        ensures
            half == Self::spec_from_id(id),
            half.spec_id() == id,
    {
        if id == 0 {
            TrapdoorHalf::Top
        } else {
            TrapdoorHalf::Bottom
        }
    }
}

/// The text on the four rows of a sign.
#[derive(Clone, Debug)]
pub struct SignBlockEntity {
    pub first_row: String,
    pub second_row: String,
    pub third_row: String,
    pub fouth_row: String,
}

/// Data that a block keeps beside its state.
#[derive(Clone, Debug)]
pub enum BlockEntity {
    Comparator { output_strength: u8 },
    Container { comparator_override: u8 },
    Sign(Box<SignBlockEntity>),
}

/// Whether a character is a decimal digit.
pub open spec fn is_digit_char(c: char) -> bool {
    48 <= c as u32 <= 57
}

/// The number that a row of decimal digits spells.
pub open spec fn chars_value(row: Seq<char>) -> nat
    decreases row.len(),
{
    if row.len() == 0 {
        0
    } else {
        chars_value(row.drop_last()) * 10 + (row.last() as u32 - 48) as nat
    }
}

/// The number below 256 that a text reads as: an optional plus sign, then at least one
/// decimal digit and nothing else, spelling no more than 255. Any other text reads as none.
pub open spec fn parsed_u8(text: Seq<char>) -> Option<u8> {
    let row = if text.len() > 0 && text[0] == '+' {
        text.skip(1)
    } else {
        text
    };
    if row.len() >= 1 && (forall|i: int| 0 <= i < row.len() ==> is_digit_char(#[trigger] row[i]))
        && chars_value(row) <= 255 {
        Some(chars_value(row) as u8)
    } else {
        None
    }
}

/// `str::parse::<u8>`: the number that the text reads as, by the rule that std documents
/// for its unsigned integers.
#[verifier::external_body]
fn parse_u8(val: &str) -> (number: Option<u8>)
    ensures
        number == parsed_u8(val@),
{
    val.parse::<u8>().ok()
}

/// The flag that a block of the table holds, if it holds one: lit or powered.
pub open spec fn powered_flag(block: Block) -> Option<bool> {
    match block {
        Block::RedstoneComparator(comparator) => Some(comparator.powered),
        Block::RedstoneTorch(lit) => Some(lit),
        Block::RedstoneWallTorch(lit, _) => Some(lit),
        Block::RedstoneRepeater(repeater) => Some(repeater.powered),
        Block::Lever(lever) => Some(lever.powered),
        Block::RedstoneLamp(lit) => Some(lit),
        _ => None,
    }
}

/// A block of the table with its flag set; the block itself where it holds no flag.
pub open spec fn with_powered_flag(block: Block, flag: bool) -> Block {
    match block {
        Block::RedstoneComparator(comparator) => Block::RedstoneComparator(
            RedstoneComparator { powered: flag, ..comparator },
        ),
        Block::RedstoneTorch(_) => Block::RedstoneTorch(flag),
        Block::RedstoneWallTorch(_, facing) => Block::RedstoneWallTorch(flag, facing),
        Block::RedstoneRepeater(repeater) => Block::RedstoneRepeater(
            RedstoneRepeater { powered: flag, ..repeater },
        ),
        Block::Lever(lever) => Block::Lever(Lever { powered: flag, ..lever }),
        Block::RedstoneLamp(_) => Block::RedstoneLamp(flag),
        _ => block,
    }
}

/// A block of the world, as far as redstone logic tells blocks apart.
#[derive(Clone, Copy, Debug, PartialEq, Eq, Structural, Hash)]
pub enum Block {
    Air,
    RedstoneWire(RedstoneWire),
    RedstoneRepeater(RedstoneRepeater),
    RedstoneComparator(RedstoneComparator),
    RedstoneTorch(bool),
    RedstoneWallTorch(bool, BlockDirection),
    RedstoneLamp(bool),
    Lever(Lever),
    RedstoneBlock,
    Container(u32),
    Solid(u32),
    Transparent(u32),
}

impl Block {
    pub fn has_block_entity(self) -> (b: bool)
        ensures
            b == (self is RedstoneComparator),
    {
        match self {
            Block::RedstoneComparator(_) => true,
            _ => false,
        }
    }

    pub fn has_comparator_override(self) -> (b: bool)
        ensures
            b == (self is Container),
    {
        match self {
            Block::Container(_) => true,
            _ => false,
        }
    }

    /// What a comparator reads from the block: the fullness that the entity of a container
    /// holds, and 0 from anything else.
    pub fn get_comparator_override(self, entity: Option<&BlockEntity>) -> (strength: u8)
        ensures
            strength == match (self, entity) {
                (Block::Container(_), Some(BlockEntity::Container { comparator_override })) => *comparator_override,
                _ => 0u8,
            },
    {
        match self {
            Block::Container(_) => match entity {
                Some(BlockEntity::Container { comparator_override }) => *comparator_override,
                _ => 0,
            },
            _ => 0,
        }
    }

    pub fn is_transparent(self) -> (b: bool)
        ensures
            b == (self is Transparent || self is RedstoneBlock),
    {
        match self {
            Block::Transparent(_) | Block::RedstoneBlock => true,
            _ => false,
        }
    }

    pub fn is_solid(self) -> (b: bool)
        ensures
            b == (self is RedstoneLamp || self is Solid || self is Container),
    {
        match self {
            Block::RedstoneLamp(_) | Block::Solid(_) | Block::Container(_) => true,
            _ => false,
        }
    }

    /// Whether the block fills its whole cube, so that others can stand on or hang from it.
    pub open spec fn spec_is_cube(self) -> bool {
        self is Solid || self is Transparent || self is RedstoneBlock || self is Container
            || self is RedstoneLamp
    }

    pub fn is_cube(self) -> (b: bool)
        ensures
            b == self.spec_is_cube(),
    {
        match self {
            Block::Solid(_)
            | Block::Transparent(_)
            | Block::RedstoneBlock
            | Block::Container(_)
            | Block::RedstoneLamp(_) => true,
            _ => false,
        }
    }

    pub fn is_diode(self) -> (b: bool)
        ensures
            b == (self is RedstoneRepeater || self is RedstoneComparator),
    {
        match self {
            Block::RedstoneRepeater(_) | Block::RedstoneComparator(_) => true,
            _ => false,
        }
    }

    /// Whether a state number names a block that a new block may replace:
    /// air, fluids and the grasses.
    pub open spec fn replaceable_state(id: u32) -> bool {
        id == 0 || 9129 <= id <= 9130 || 34 <= id <= 65 || 1341 <= id <= 1346 || 7357 <= id <= 7360
    }

    pub fn can_place_block_in(self) -> (b: bool)
        requires
            self.has_state(),
        ensures
            b == Self::replaceable_state(self.spec_id() as u32),
    {
        let id = self.get_id();
        id == 0 || (9129 <= id && id <= 9130) || (34 <= id && id <= 65) || (1341 <= id && id <= 1346)
            || (7357 <= id && id <= 7360)
    }

    /// The block that a state number stands for.
    pub open spec fn spec_from_state(id: u32) -> Block {
        if id == 0 {
            Block::Air
        } else if id == 230 || id == 7807 || id == 7855 {
            Block::Transparent(id)
        } else if 2056 <= id <= 3351 {
            let n = (id - 2056) as u32;
            Block::RedstoneWire(
                RedstoneWire {
                    north: RedstoneWireSide::spec_from_id((n % 432 / 144) as u32),
                    south: RedstoneWireSide::spec_from_id((n % 9 / 3) as u32),
                    east: RedstoneWireSide::spec_from_id((n / 432) as u32),
                    west: RedstoneWireSide::spec_from_id((n % 3) as u32),
                    power: (n % 144 / 9) as u8,
                },
            )
        } else if id == 3372 || id == 11136 {
            Block::Container(id)
        } else if 3781 <= id <= 3804 {
            let n = (id - 3781) as u32;
            Block::Lever(
                Lever {
                    face: LeverFace::spec_from_id((n / 8) as u32),
                    facing: BlockDirection::spec_from_id((n / 2 % 4) as u32),
                    powered: n % 2 == 0,
                },
            )
        } else if id == 3885 {
            Block::RedstoneTorch(true)
        } else if id == 3886 {
            Block::RedstoneTorch(false)
        } else if 3887 <= id <= 3894 {
            let n = (id - 3887) as u32;
            Block::RedstoneWallTorch(n % 2 == 0, BlockDirection::spec_from_id((n / 2) as u32))
        } else if 4017 <= id <= 4080 {
            let n = (id - 4017) as u32;
            Block::RedstoneRepeater(
                RedstoneRepeater {
                    delay: (n / 16 + 1) as u8,
                    facing: BlockDirection::spec_from_id((n / 4 % 4) as u32),
                    locked: n / 2 % 2 == 0,
                    powered: n % 2 == 0,
                },
            )
        } else if id == 5140 {
            Block::RedstoneLamp(true)
        } else if id == 5141 {
            Block::RedstoneLamp(false)
        } else if 6142 <= id <= 6157 {
            let n = (id - 6142) as u32;
            Block::RedstoneComparator(
                RedstoneComparator {
                    facing: BlockDirection::spec_from_id((n / 4) as u32),
                    mode: ComparatorMode::spec_from_id((n / 2 % 2) as u32),
                    powered: n % 2 == 0,
                },
            )
        } else if id == 6190 {
            Block::RedstoneBlock
        } else {
            Block::Solid(id)
        }
    }

    /// The block that a state number stands for. Its own state number is the number again.
    pub fn from_block_state(id: u32) -> (block: Block)
        ensures
            block == Self::spec_from_state(id),
            block.has_state(),
            block.spec_id() == id,
    {
        proof {
            Self::lemma_id_round_trip(id);
        }
        if id == 0 {
            Block::Air
        } else if id == 230 || id == 7807 || id == 7855 {
            Block::Transparent(id)
        } else if 2056 <= id && id <= 3351 {
            let n: u32 = id - 2056;
            let west = RedstoneWireSide::from_id(n % 3);
            let south = RedstoneWireSide::from_id(n % 9 / 3);
            let power: u32 = n % 144 / 9;
            let north = RedstoneWireSide::from_id(n % 432 / 144);
            let east = RedstoneWireSide::from_id(n / 432);
            Block::RedstoneWire(RedstoneWire::new(north, south, east, west, power as u8))
        } else if id == 3372 || id == 11136 {
            Block::Container(id)
        } else if 3781 <= id && id <= 3804 {
            let n: u32 = id - 3781;
            let face = LeverFace::from_id(n / 8);
            let facing = BlockDirection::from_id(n / 2 % 4);
            Block::Lever(Lever::new(face, facing, n % 2 == 0))
        } else if id == 3885 {
            Block::RedstoneTorch(true)
        } else if id == 3886 {
            Block::RedstoneTorch(false)
        } else if 3887 <= id && id <= 3894 {
            let n: u32 = id - 3887;
            Block::RedstoneWallTorch(n % 2 == 0, BlockDirection::from_id(n / 2))
        } else if 4017 <= id && id <= 4080 {
            let n: u32 = id - 4017;
            let facing = BlockDirection::from_id(n / 4 % 4);
            let delay: u32 = n / 16 + 1;
            Block::RedstoneRepeater(
                RedstoneRepeater::new(delay as u8, facing, n / 2 % 2 == 0, n % 2 == 0),
            )
        } else if id == 5140 {
            Block::RedstoneLamp(true)
        } else if id == 5141 {
            Block::RedstoneLamp(false)
        } else if 6142 <= id && id <= 6157 {
            let n: u32 = id - 6142;
            let mode = ComparatorMode::from_id(n / 2 % 2);
            let facing = BlockDirection::from_id(n / 4);
            Block::RedstoneComparator(RedstoneComparator::new(facing, mode, n % 2 == 0))
        } else if id == 6190 {
            Block::RedstoneBlock
        } else {
            Block::Solid(id)
        }
    }

    /// Air, glass, slabs and stone by name.
    pub open spec fn spec_plain_named(name: Seq<char>) -> Option<Block> {
        if name == "air"@ {
            Some(Block::Air)
        } else if name == "glass"@ {
            Some(Block::Transparent(230))
        } else if name == "quartz_slab"@ {
            Some(Block::Transparent(7855))
        } else if name == "smooth_stone_slab"@ {
            Some(Block::Transparent(7807))
        } else if name == "sandstone"@ {
            Some(Block::Solid(245))
        } else if name == "stone_bricks"@ {
            Some(Block::Solid(4481))
        } else {
            None
        }
    }

    fn plain_named(name: &str) -> (block: Option<Block>)
        ensures
            block == Self::spec_plain_named(name@),
    {
        if str_eq(name, "air") {
            Some(Block::Air)
        } else if str_eq(name, "glass") {
            Some(Block::Transparent(230))
        } else if str_eq(name, "quartz_slab") {
            Some(Block::Transparent(7855))
        } else if str_eq(name, "smooth_stone_slab") {
            Some(Block::Transparent(7807))
        } else if str_eq(name, "sandstone") {
            Some(Block::Solid(245))
        } else if str_eq(name, "stone_bricks") {
            Some(Block::Solid(4481))
        } else {
            None
        }
    }

    /// The terracottas by name.
    pub open spec fn spec_terracotta_named(name: Seq<char>) -> Option<Block> {
        if name == "white_terracotta"@ {
            Some(Block::Solid(6311))
        } else if name == "orange_terracotta"@ {
            Some(Block::Solid(6312))
        } else if name == "megenta_terracotta"@ {
            Some(Block::Solid(6313))
        } else if name == "light_blue_terracotta"@ {
            Some(Block::Solid(6314))
        } else if name == "yellow_terracotta"@ {
            Some(Block::Solid(6315))
        } else if name == "lime_terracotta"@ {
            Some(Block::Solid(6316))
        } else if name == "pink_terracotta"@ {
            Some(Block::Solid(6317))
        } else if name == "gray_terracotta"@ {
            Some(Block::Solid(6318))
        } else if name == "light_gray_terracotta"@ {
            Some(Block::Solid(6319))
        } else if name == "cyan_terracotta"@ {
            Some(Block::Solid(6320))
        } else if name == "purple_terracotta"@ {
            Some(Block::Solid(6321))
        } else if name == "blue_terracotta"@ {
            Some(Block::Solid(6322))
        } else if name == "brown_terracotta"@ {
            Some(Block::Solid(6323))
        } else if name == "green_terracotta"@ {
            Some(Block::Solid(6324))
        } else if name == "red_terracotta"@ {
            Some(Block::Solid(6325))
        } else if name == "black_terracotta"@ {
            Some(Block::Solid(6326))
        } else {
            None
        }
    }

    fn terracotta_named(name: &str) -> (block: Option<Block>)
        ensures
            block == Self::spec_terracotta_named(name@),
    {
        if str_eq(name, "white_terracotta") {
            Some(Block::Solid(6311))
        } else if str_eq(name, "orange_terracotta") {
            Some(Block::Solid(6312))
        } else if str_eq(name, "megenta_terracotta") {
            Some(Block::Solid(6313))
        } else if str_eq(name, "light_blue_terracotta") {
            Some(Block::Solid(6314))
        } else if str_eq(name, "yellow_terracotta") {
            Some(Block::Solid(6315))
        } else if str_eq(name, "lime_terracotta") {
            Some(Block::Solid(6316))
        } else if str_eq(name, "pink_terracotta") {
            Some(Block::Solid(6317))
        } else if str_eq(name, "gray_terracotta") {
            Some(Block::Solid(6318))
        } else if str_eq(name, "light_gray_terracotta") {
            Some(Block::Solid(6319))
        } else if str_eq(name, "cyan_terracotta") {
            Some(Block::Solid(6320))
        } else if str_eq(name, "purple_terracotta") {
            Some(Block::Solid(6321))
        } else if str_eq(name, "blue_terracotta") {
            Some(Block::Solid(6322))
        } else if str_eq(name, "brown_terracotta") {
            Some(Block::Solid(6323))
        } else if str_eq(name, "green_terracotta") {
            Some(Block::Solid(6324))
        } else if str_eq(name, "red_terracotta") {
            Some(Block::Solid(6325))
        } else if str_eq(name, "black_terracotta") {
            Some(Block::Solid(6326))
        } else {
            None
        }
    }

    /// The concretes by name.
    pub open spec fn spec_concrete_named(name: Seq<char>) -> Option<Block> {
        if name == "white_concrete"@ {
            Some(Block::Solid(8902))
        } else if name == "orange_concrete"@ {
            Some(Block::Solid(8903))
        } else if name == "megenta_concrete"@ {
            Some(Block::Solid(8904))
        } else if name == "light_blue_concrete"@ {
            Some(Block::Solid(8905))
        } else if name == "yellow_concrete"@ {
            Some(Block::Solid(8906))
        } else if name == "lime_concrete"@ {
            Some(Block::Solid(8907))
        } else if name == "pink_concrete"@ {
            Some(Block::Solid(8908))
        } else if name == "gray_concrete"@ {
            Some(Block::Solid(8909))
        } else if name == "light_gray_concrete"@ {
            Some(Block::Solid(8910))
        } else if name == "cyan_concrete"@ {
            Some(Block::Solid(8911))
        } else if name == "purple_concrete"@ {
            Some(Block::Solid(8912))
        } else if name == "blue_concrete"@ {
            Some(Block::Solid(8913))
        } else if name == "brown_concrete"@ {
            Some(Block::Solid(8914))
        } else if name == "green_concrete"@ {
            Some(Block::Solid(8915))
        } else if name == "red_concrete"@ {
            Some(Block::Solid(8916))
        } else if name == "black_concrete"@ {
            Some(Block::Solid(8917))
        } else {
            None
        }
    }

    fn concrete_named(name: &str) -> (block: Option<Block>)
        ensures
            block == Self::spec_concrete_named(name@),
    {
        if str_eq(name, "white_concrete") {
            Some(Block::Solid(8902))
        } else if str_eq(name, "orange_concrete") {
            Some(Block::Solid(8903))
        } else if str_eq(name, "megenta_concrete") {
            Some(Block::Solid(8904))
        } else if str_eq(name, "light_blue_concrete") {
            Some(Block::Solid(8905))
        } else if str_eq(name, "yellow_concrete") {
            Some(Block::Solid(8906))
        } else if str_eq(name, "lime_concrete") {
            Some(Block::Solid(8907))
        } else if str_eq(name, "pink_concrete") {
            Some(Block::Solid(8908))
        } else if str_eq(name, "gray_concrete") {
            Some(Block::Solid(8909))
        } else if str_eq(name, "light_gray_concrete") {
            Some(Block::Solid(8910))
        } else if str_eq(name, "cyan_concrete") {
            Some(Block::Solid(8911))
        } else if str_eq(name, "purple_concrete") {
            Some(Block::Solid(8912))
        } else if str_eq(name, "blue_concrete") {
            Some(Block::Solid(8913))
        } else if str_eq(name, "brown_concrete") {
            Some(Block::Solid(8914))
        } else if str_eq(name, "green_concrete") {
            Some(Block::Solid(8915))
        } else if str_eq(name, "red_concrete") {
            Some(Block::Solid(8916))
        } else if str_eq(name, "black_concrete") {
            Some(Block::Solid(8917))
        } else {
            None
        }
    }

    /// The redstone components and containers by name.
    pub open spec fn spec_redstone_named(name: Seq<char>) -> Option<Block> {
        if name == "redstone_wire"@ {
            Some(Block::RedstoneWire(RedstoneWire {
                    north: RedstoneWireSide::Unconnected,
                    south: RedstoneWireSide::Unconnected,
                    east: RedstoneWireSide::Unconnected,
                    west: RedstoneWireSide::Unconnected,
                    power: 0,
                }))
        } else if name == "redstone_torch"@ {
            Some(Block::RedstoneTorch(true))
        } else if name == "redstone_wall_torch"@ {
            Some(Block::RedstoneWallTorch(true, BlockDirection::West))
        } else if name == "redstone_block"@ {
            Some(Block::RedstoneBlock)
        } else if name == "redstone_lamp"@ {
            Some(Block::RedstoneLamp(false))
        } else if name == "repeater"@ {
            Some(Block::RedstoneRepeater(RedstoneRepeater { delay: 1, facing: BlockDirection::West, locked: false, powered: false }))
        } else if name == "comparator"@ {
            Some(Block::RedstoneComparator(RedstoneComparator { facing: BlockDirection::West, mode: ComparatorMode::Compare, powered: false }))
        } else if name == "furnace"@ {
            Some(Block::Container(3372))
        } else if name == "barrel"@ {
            Some(Block::Container(11136))
        } else if name == "lever"@ {
            Some(Block::Lever(Lever { face: LeverFace::Wall, facing: BlockDirection::West, powered: false }))
        } else {
            None
        }
    }

    fn redstone_named(name: &str) -> (block: Option<Block>)
        ensures
            block == Self::spec_redstone_named(name@),
    {
        if str_eq(name, "redstone_wire") {
            Some(Block::RedstoneWire(RedstoneWire::default()))
        } else if str_eq(name, "redstone_torch") {
            Some(Block::RedstoneTorch(true))
        } else if str_eq(name, "redstone_wall_torch") {
            Some(Block::RedstoneWallTorch(true, BlockDirection::West))
        } else if str_eq(name, "redstone_block") {
            Some(Block::RedstoneBlock)
        } else if str_eq(name, "redstone_lamp") {
            Some(Block::RedstoneLamp(false))
        } else if str_eq(name, "repeater") {
            Some(Block::RedstoneRepeater(RedstoneRepeater::default()))
        } else if str_eq(name, "comparator") {
            Some(Block::RedstoneComparator(RedstoneComparator::default()))
        } else if str_eq(name, "furnace") {
            Some(Block::Container(3372))
        } else if str_eq(name, "barrel") {
            Some(Block::Container(11136))
        } else if str_eq(name, "lever") {
            Some(Block::Lever(Lever::default()))
        } else {
            None
        }
    }

    /// The block that a name stands for, in its default state.
    pub open spec fn spec_from_name(name: Seq<char>) -> Option<Block> {
        if Self::spec_plain_named(name) is Some {
            Self::spec_plain_named(name)
        } else if Self::spec_terracotta_named(name) is Some {
            Self::spec_terracotta_named(name)
        } else if Self::spec_concrete_named(name) is Some {
            Self::spec_concrete_named(name)
        } else {
            Self::spec_redstone_named(name)
        }
    }

    pub fn from_name(name: &str) -> (block: Option<Block>)
        ensures
            block == Self::spec_from_name(name@),
    {
        match Self::plain_named(name) {
            Some(block) => Some(block),
            None => match Self::terracotta_named(name) {
                Some(block) => Some(block),
                None => match Self::concrete_named(name) {
                    Some(block) => Some(block),
                    None => Self::redstone_named(name),
                },
            },
        }
    }

    /// The block with one of its properties set from text, given the number and the
    /// flag that the text reads as. A number that the text does not spell counts as 0
    /// (as 1 for the delay of a repeater), a missing flag as false; a direction, a side,
    /// a face or a mode that the text does not name is west, unconnected, the wall or
    /// compare mode. A key that the block does not have changes nothing.
    pub open spec fn with_property(self, key: Seq<char>, val: Seq<char>, number: Option<u8>) -> Block {
        let flag = val == "true"@;
        match self {
            Block::RedstoneWire(wire) => if key == "north"@ {
                Block::RedstoneWire(RedstoneWire { north: RedstoneWireSide::named(val), ..wire })
            } else if key == "south"@ {
                Block::RedstoneWire(RedstoneWire { south: RedstoneWireSide::named(val), ..wire })
            } else if key == "east"@ {
                Block::RedstoneWire(RedstoneWire { east: RedstoneWireSide::named(val), ..wire })
            } else if key == "west"@ {
                Block::RedstoneWire(RedstoneWire { west: RedstoneWireSide::named(val), ..wire })
            } else if key == "power"@ {
                Block::RedstoneWire(RedstoneWire { power: number.unwrap_or(0), ..wire })
            } else {
                self
            },
            Block::RedstoneLamp(lit) => if key == "lit"@ {
                Block::RedstoneLamp(flag)
            } else {
                self
            },
            Block::RedstoneTorch(lit) => if key == "lit"@ {
                Block::RedstoneTorch(flag)
            } else {
                self
            },
            Block::RedstoneWallTorch(lit, facing) => if key == "lit"@ {
                Block::RedstoneWallTorch(flag, facing)
            } else if key == "facing"@ {
                Block::RedstoneWallTorch(lit, BlockDirection::named(val))
            } else {
                self
            },
            Block::RedstoneRepeater(repeater) => if key == "facing"@ {
                Block::RedstoneRepeater(
                    RedstoneRepeater { facing: BlockDirection::named(val), ..repeater },
                )
            } else if key == "delay"@ {
                Block::RedstoneRepeater(RedstoneRepeater { delay: number.unwrap_or(1), ..repeater })
            } else if key == "powered"@ {
                Block::RedstoneRepeater(RedstoneRepeater { powered: flag, ..repeater })
            } else if key == "locked"@ {
                Block::RedstoneRepeater(RedstoneRepeater { locked: flag, ..repeater })
            } else {
                self
            },
            Block::RedstoneComparator(comparator) => if key == "facing"@ {
                Block::RedstoneComparator(
                    RedstoneComparator { facing: BlockDirection::named(val), ..comparator },
                )
            } else if key == "mode"@ {
                Block::RedstoneComparator(
                    RedstoneComparator { mode: ComparatorMode::named(val), ..comparator },
                )
            } else if key == "powered"@ {
                Block::RedstoneComparator(RedstoneComparator { powered: flag, ..comparator })
            } else {
                self
            },
            Block::Lever(lever) => if key == "face"@ {
                Block::Lever(Lever { face: LeverFace::named(val), ..lever })
            } else if key == "facing"@ {
                Block::Lever(Lever { facing: BlockDirection::named(val), ..lever })
            } else if key == "powered"@ {
                Block::Lever(Lever { powered: flag, ..lever })
            } else {
                self
            },
            _ => self,
        }
    }

    /// Sets one property of the block from text, with the number that the text reads as.
    pub fn set_parsed_property(&mut self, key: &str, val: &str, number: Option<u8>)
        ensures
            *final(self) == old(self).with_property(key@, val@, number),
    {
        let flag = str_eq(val, "true");
        let current = *self;
        match current {
            Block::RedstoneWire(wire) => {
                let mut wire = wire;
                if str_eq(key, "north") {
                    wire.north = RedstoneWireSide::from_str(val);
                } else if str_eq(key, "south") {
                    wire.south = RedstoneWireSide::from_str(val);
                } else if str_eq(key, "east") {
                    wire.east = RedstoneWireSide::from_str(val);
                } else if str_eq(key, "west") {
                    wire.west = RedstoneWireSide::from_str(val);
                } else if str_eq(key, "power") {
                    wire.power = match number {
                        Some(n) => n,
                        None => 0,
                    };
                }
                *self = Block::RedstoneWire(wire);
            },
            Block::RedstoneLamp(_) => {
                if str_eq(key, "lit") {
                    *self = Block::RedstoneLamp(flag);
                }
            },
            Block::RedstoneTorch(_) => {
                if str_eq(key, "lit") {
                    *self = Block::RedstoneTorch(flag);
                }
            },
            Block::RedstoneWallTorch(lit, facing) => {
                if str_eq(key, "lit") {
                    *self = Block::RedstoneWallTorch(flag, facing);
                } else if str_eq(key, "facing") {
                    *self = Block::RedstoneWallTorch(lit, BlockDirection::from_str(val));
                }
            },
            Block::RedstoneRepeater(repeater) => {
                let mut repeater = repeater;
                if str_eq(key, "facing") {
                    repeater.facing = BlockDirection::from_str(val);
                } else if str_eq(key, "delay") {
                    repeater.delay = match number {
                        Some(n) => n,
                        None => 1,
                    };
                } else if str_eq(key, "powered") {
                    repeater.powered = flag;
                } else if str_eq(key, "locked") {
                    repeater.locked = flag;
                }
                *self = Block::RedstoneRepeater(repeater);
            },
            Block::RedstoneComparator(comparator) => {
                let mut comparator = comparator;
                if str_eq(key, "facing") {
                    comparator.facing = BlockDirection::from_str(val);
                } else if str_eq(key, "mode") {
                    comparator.mode = ComparatorMode::from_str(val);
                } else if str_eq(key, "powered") {
                    comparator.powered = flag;
                }
                *self = Block::RedstoneComparator(comparator);
            },
            Block::Lever(lever) => {
                let mut lever = lever;
                if str_eq(key, "face") {
                    lever.face = LeverFace::from_str(val);
                } else if str_eq(key, "facing") {
                    lever.facing = BlockDirection::from_str(val);
                } else if str_eq(key, "powered") {
                    lever.powered = flag;
                }
                *self = Block::Lever(lever);
            },
            _ => {},
        }
    }

    /// Sets one property of the block from text. The number that a text reads as is
    /// `parsed_u8` of the text.
    pub fn set_property(&mut self, key: &str, val: &str)
        ensures
            *final(self) == old(self).with_property(key@, val@, parsed_u8(val@)),
    {
        let number = parse_u8(val);
        self.set_parsed_property(key, val, number);
    }

    /// The block after a player used it: a repeater with the next of its four delays, a
    /// comparator in its other mode, a lever turned over. Any other block does not
    /// react.
    pub open spec fn spec_used(self) -> Option<Block> {
        match self {
            Block::RedstoneRepeater(repeater) => Some(
                Block::RedstoneRepeater(
                    RedstoneRepeater {
                        delay: if repeater.delay >= 4 {
                            (repeater.delay - 3) as u8
                        } else {
                            (repeater.delay + 1) as u8
                        },
                        ..repeater
                    },
                ),
            ),
            Block::RedstoneComparator(comparator) => Some(
                Block::RedstoneComparator(
                    RedstoneComparator {
                        mode: match comparator.mode {
                            ComparatorMode::Compare => ComparatorMode::Subtract,
                            ComparatorMode::Subtract => ComparatorMode::Compare,
                        },
                        ..comparator
                    },
                ),
            ),
            Block::Lever(lever) => Some(Block::Lever(Lever { powered: !lever.powered, ..lever })),
            _ => None,
        }
    }

    /// What a use of the block by a player changes it into, if it reacts. The host puts the
    /// new block into the world and updates its neighbours.
    pub fn on_use(self) -> (used: Option<Block>)
        ensures
            used == self.spec_used(),
    {
        match self {
            Block::RedstoneRepeater(repeater) => {
                let mut repeater = repeater;
                if repeater.delay >= 4 {
                    repeater.delay = repeater.delay - 3;
                } else {
                    repeater.delay = repeater.delay + 1;
                }
                Some(Block::RedstoneRepeater(repeater))
            },
            Block::RedstoneComparator(comparator) => {
                let mut comparator = comparator;
                comparator.mode = match comparator.mode {
                    ComparatorMode::Compare => ComparatorMode::Subtract,
                    ComparatorMode::Subtract => ComparatorMode::Compare,
                };
                Some(Block::RedstoneComparator(comparator))
            },
            Block::Lever(lever) => {
                let mut lever = lever;
                lever.powered = !lever.powered;
                Some(Block::Lever(lever))
            },
            _ => None,
        }
    }

    /// The face through which the block hangs on the block that carries it; none for a
    /// block that needs no support.
    pub open spec fn spec_support_face(self) -> Option<BlockFace> {
        match self {
            Block::RedstoneWire(_)
            | Block::RedstoneComparator(_)
            | Block::RedstoneRepeater(_)
            | Block::RedstoneTorch(_) => Some(BlockFace::Bottom),
            Block::RedstoneWallTorch(_, direction) => Some(
                match direction.spec_opposite() {
                    BlockDirection::North => BlockFace::North,
                    BlockDirection::South => BlockFace::South,
                    BlockDirection::East => BlockFace::East,
                    BlockDirection::West => BlockFace::West,
                },
            ),
            Block::Lever(lever) => Some(
                match lever.face {
                    LeverFace::Floor => BlockFace::Bottom,
                    LeverFace::Ceiling => BlockFace::Top,
                    LeverFace::Wall => match lever.facing.spec_opposite() {
                        BlockDirection::North => BlockFace::North,
                        BlockDirection::South => BlockFace::South,
                        BlockDirection::East => BlockFace::East,
                        BlockDirection::West => BlockFace::West,
                    },
                },
            ),
            _ => None,
        }
    }

    /// The face through which the block hangs on the block that carries it.
    pub fn support_face(self) -> (face: Option<BlockFace>)
        ensures
            face == self.spec_support_face(),
    {
        match self {
            Block::RedstoneWire(_)
            | Block::RedstoneComparator(_)
            | Block::RedstoneRepeater(_)
            | Block::RedstoneTorch(_) => Some(BlockFace::Bottom),
            Block::RedstoneWallTorch(_, direction) => Some(direction.opposite().block_face()),
            Block::Lever(lever) => Some(
                match lever.face {
                    LeverFace::Floor => BlockFace::Bottom,
                    LeverFace::Ceiling => BlockFace::Top,
                    LeverFace::Wall => lever.facing.opposite().block_face(),
                },
            ),
            _ => None,
        }
    }

    /// Whether the block can stand where it is, given the block behind its support face:
    /// a block that needs support stands on a full cube only.
    pub fn is_valid_position(self, support: Block) -> (valid: bool)
        ensures
            valid == (self.spec_support_face() is None || support.spec_is_cube()),
    {
        match self.support_face() {
            Some(_) => support.is_cube(),
            None => true,
        }
    }

    /// Whether the block has a state number: a repeater needs a delay of at least one tick.
    pub open spec fn has_state(self) -> bool {
        self matches Block::RedstoneRepeater(r) ==> r.delay >= 1
    }

    /// The state number of a block.
    pub open spec fn spec_id(self) -> int {
        match self {
            Block::Air => 0,
            Block::RedstoneWire(wire) => wire.spec_offset() + 2056,
            Block::Lever(lever) => lever.spec_offset() + 3781,
            Block::RedstoneTorch(lit) => flag_id(lit) + 3885,
            Block::RedstoneWallTorch(lit, facing) => facing.spec_id() * 2 + flag_id(lit) + 3887,
            Block::RedstoneRepeater(repeater) => repeater.spec_offset() + 4017,
            Block::RedstoneLamp(lit) => flag_id(lit) + 5140,
            Block::RedstoneComparator(comparator) => comparator.spec_offset() + 6142,
            Block::RedstoneBlock => 6190,
            Block::Solid(id) => id as int,
            Block::Transparent(id) => id as int,
            Block::Container(id) => id as int,
        }
    }

    pub fn get_id(self) -> (id: u32)
        requires
            self.has_state(),
        ensures
            id == self.spec_id(),
    {
        match self {
            Block::Air => 0,
            Block::RedstoneWire(wire) => wire.state_offset() + 2056,
            Block::Lever(lever) => lever.state_offset() + 3781,
            Block::RedstoneTorch(lit) => flag(lit) + 3885,
            Block::RedstoneWallTorch(lit, facing) => {
                let facing: u32 = facing.get_id();
                facing * 2 + flag(lit) + 3887
            },
            Block::RedstoneRepeater(repeater) => repeater.state_offset() + 4017,
            Block::RedstoneLamp(lit) => flag(lit) + 5140,
            Block::RedstoneComparator(comparator) => comparator.state_offset() + 6142,
            Block::RedstoneBlock => 6190,
            Block::Solid(id) => id,
            Block::Transparent(id) => id,
            Block::Container(id) => id,
        }
    }

    /// Whether the block is one that a state number can stand for: dust power up to 15,
    /// a repeater delay of 1 to 4, and a plain block under a number that names no other kind.
    pub open spec fn is_state(self) -> bool {
        match self {
            Block::RedstoneWire(wire) => wire.power <= 15,
            Block::RedstoneRepeater(repeater) => 1 <= repeater.delay <= 4,
            Block::Solid(id) => Self::spec_from_state(id) == self,
            Block::Transparent(id) => Self::spec_from_state(id) == self,
            Block::Container(id) => Self::spec_from_state(id) == self,
            _ => true,
        }
    }

    /// Every state number comes back from the block it stands for.
    pub proof fn lemma_id_round_trip(id: u32)
        ensures
            Self::spec_from_state(id).has_state(),
            Self::spec_from_state(id).spec_id() == id,
    {
        if 2056 <= id <= 3351 {
            lemma_wire_id((id - 2056) as int);
        } else if 3781 <= id <= 3804 {
            lemma_lever_id((id - 3781) as int);
        } else if 3887 <= id <= 3894 {
            lemma_wall_torch_id((id - 3887) as int);
        } else if 4017 <= id <= 4080 {
            lemma_repeater_id((id - 4017) as int);
        } else if 6142 <= id <= 6157 {
            lemma_comparator_id((id - 6142) as int);
        }
    }

    /// Reading the state number of a block gives the block back.
    pub proof fn lemma_state_round_trip(self)
        requires
            self.is_state(),
        ensures
            0 <= self.spec_id() <= u32::MAX,
            Self::spec_from_state(self.spec_id() as u32) == self,
    {
        match self {
            Block::RedstoneWire(wire) => lemma_wire_state(wire),
            Block::Lever(lever) => lemma_lever_state(lever),
            Block::RedstoneWallTorch(lit, facing) => lemma_wall_torch_state(lit, facing),
            Block::RedstoneRepeater(repeater) => lemma_repeater_state(repeater),
            Block::RedstoneComparator(comparator) => lemma_comparator_state(comparator),
            _ => {},
        }
    }
}

proof fn lemma_wire_state(wire: RedstoneWire)
    requires
        wire.power <= 15,
    ensures
        Block::spec_from_state((wire.spec_offset() + 2056) as u32) == Block::RedstoneWire(wire),
        0 <= wire.spec_offset() + 2056 <= 3351,
{
    lemma_wire_offset(wire);
    let id = (wire.spec_offset() + 2056) as u32;
    let n = (id - 2056) as u32;
    assert(n == wire.spec_offset());
    let back = RedstoneWire {
        north: RedstoneWireSide::spec_from_id((n % 432 / 144) as u32),
        south: RedstoneWireSide::spec_from_id((n % 9 / 3) as u32),
        east: RedstoneWireSide::spec_from_id((n / 432) as u32),
        west: RedstoneWireSide::spec_from_id((n % 3) as u32),
        power: (n % 144 / 9) as u8,
    };
    assert(back.north == wire.north);
    assert(back.south == wire.south);
    assert(back.east == wire.east);
    assert(back.west == wire.west);
    assert(back.power == wire.power);
    assert(back == wire);
    assert(Block::spec_from_state(id) == Block::RedstoneWire(back));
}

proof fn lemma_lever_state(lever: Lever)
    ensures
        Block::spec_from_state((lever.spec_offset() + 3781) as u32) == Block::Lever(lever),
        0 <= lever.spec_offset() + 3781 <= 3804,
{
    lemma_face_offset(lever.face.spec_id() as int, lever.facing.spec_id() as int, lever.powered);
    let id = (lever.spec_offset() + 3781) as u32;
    let n = (id - 3781) as u32;
    let back = Lever {
        face: LeverFace::spec_from_id((n / 8) as u32),
        facing: BlockDirection::spec_from_id((n / 2 % 4) as u32),
        powered: n % 2 == 0,
    };
    assert(back.face == lever.face);
    assert(back.facing == lever.facing);
    assert(back == lever);
    assert(Block::spec_from_state(id) == Block::Lever(back));
}

proof fn lemma_wall_torch_state(lit: bool, facing: BlockDirection)
    ensures
        Block::spec_from_state((facing.spec_id() * 2 + flag_id(lit) + 3887) as u32)
            == Block::RedstoneWallTorch(lit, facing),
        0 <= facing.spec_id() * 2 + flag_id(lit) + 3887 <= 3894,
{
    let d = facing.spec_id() as int;
    let k = d * 2 + flag_id(lit);
    assert(0 <= d < 4);
    assert(k / 2 == d && (k % 2 == 0) == lit);
    assert(BlockDirection::spec_from_id(d as u32) == facing);
}

proof fn lemma_repeater_state(repeater: RedstoneRepeater)
    requires
        1 <= repeater.delay <= 4,
    ensures
        Block::spec_from_state((repeater.spec_offset() + 4017) as u32) == Block::RedstoneRepeater(
            repeater,
        ),
        0 <= repeater.spec_offset() + 4017 <= 4080,
{
    lemma_repeater_offset(repeater);
    let id = (repeater.spec_offset() + 4017) as u32;
    let n = (id - 4017) as u32;
    let back = RedstoneRepeater {
        delay: (n / 16 + 1) as u8,
        facing: BlockDirection::spec_from_id((n / 4 % 4) as u32),
        locked: n / 2 % 2 == 0,
        powered: n % 2 == 0,
    };
    assert(back.facing == repeater.facing);
    assert(back.delay == repeater.delay);
    assert(back == repeater);
    assert(Block::spec_from_state(id) == Block::RedstoneRepeater(back));
}

proof fn lemma_comparator_state(comparator: RedstoneComparator)
    ensures
        Block::spec_from_state((comparator.spec_offset() + 6142) as u32)
            == Block::RedstoneComparator(comparator),
        0 <= comparator.spec_offset() + 6142 <= 6157,
{
    let d = comparator.facing.spec_id() as int;
    let m = comparator.mode.spec_id() as int;
    let k = d * 4 + m * 2 + flag_id(comparator.powered);
    assert(0 <= d < 4 && 0 <= m < 2);
    assert(k / 4 == d && k / 2 % 2 == m && (k % 2 == 0) == comparator.powered);
    let id = (k + 6142) as u32;
    let n = (id - 6142) as u32;
    let back = RedstoneComparator {
        facing: BlockDirection::spec_from_id((n / 4) as u32),
        mode: ComparatorMode::spec_from_id((n / 2 % 2) as u32),
        powered: n % 2 == 0,
    };
    assert(back.facing == comparator.facing);
    assert(back.mode == comparator.mode);
    assert(back == comparator);
    assert(Block::spec_from_state(id) == Block::RedstoneComparator(back));
}

proof fn lemma_radix_back(n: int)
    requires
        0 <= n <= 1295,
    ensures
        n == (n / 432) * 432 + (n % 432 / 144) * 144 + (n % 144 / 9) * 9 + (n % 9 / 3) * 3 + n % 3,
        0 <= n / 432 < 3,
{
    let r = n % 432;
    assert(n == (n / 432) * 432 + r);
    assert(r == (r / 144) * 144 + r % 144);
    assert(r % 144 == n % 144);
    let t = n % 144;
    assert(t == (t / 9) * 9 + t % 9);
    assert(t % 9 == n % 9);
    let u = n % 9;
    assert(u == (u / 3) * 3 + u % 3);
    assert(u % 3 == n % 3);
}

proof fn lemma_wire_id(n: int)
    requires
        0 <= n <= 1295,
    ensures
        Block::spec_from_state((n + 2056) as u32).spec_id() == n + 2056,
        Block::spec_from_state((n + 2056) as u32).has_state(),
{
    lemma_radix_back(n);
    let id = (n + 2056) as u32;
    let m = (id - 2056) as u32;
    assert(m == n);
    let wire = RedstoneWire {
        north: RedstoneWireSide::spec_from_id((m % 432 / 144) as u32),
        south: RedstoneWireSide::spec_from_id((m % 9 / 3) as u32),
        east: RedstoneWireSide::spec_from_id((m / 432) as u32),
        west: RedstoneWireSide::spec_from_id((m % 3) as u32),
        power: (m % 144 / 9) as u8,
    };
    assert(Block::spec_from_state(id) == Block::RedstoneWire(wire));
    assert(wire.north.spec_id() == n % 432 / 144);
    assert(wire.south.spec_id() == n % 9 / 3);
    assert(wire.east.spec_id() == n / 432);
    assert(wire.west.spec_id() == n % 3);
    assert(wire.power == n % 144 / 9);
}

proof fn lemma_lever_id(n: int)
    requires
        0 <= n <= 23,
    ensures
        Block::spec_from_state((n + 3781) as u32).spec_id() == n + 3781,
{
    let id = (n + 3781) as u32;
    let m = (id - 3781) as u32;
    let lever = Lever {
        face: LeverFace::spec_from_id((m / 8) as u32),
        facing: BlockDirection::spec_from_id((m / 2 % 4) as u32),
        powered: m % 2 == 0,
    };
    assert(Block::spec_from_state(id) == Block::Lever(lever));
    assert(lever.face.spec_id() == n / 8);
    assert(lever.facing.spec_id() == n / 2 % 4);
    assert(n == (n / 8) * 8 + (n / 2 % 4) * 2 + n % 2);
}

proof fn lemma_wall_torch_id(n: int)
    requires
        0 <= n <= 7,
    ensures
        Block::spec_from_state((n + 3887) as u32).spec_id() == n + 3887,
{
    let id = (n + 3887) as u32;
    let m = (id - 3887) as u32;
    let facing = BlockDirection::spec_from_id((m / 2) as u32);
    assert(Block::spec_from_state(id) == Block::RedstoneWallTorch(m % 2 == 0, facing));
    assert(facing.spec_id() == n / 2);
}

proof fn lemma_repeater_id(n: int)
    requires
        0 <= n <= 63,
    ensures
        Block::spec_from_state((n + 4017) as u32).spec_id() == n + 4017,
        Block::spec_from_state((n + 4017) as u32).has_state(),
{
    let id = (n + 4017) as u32;
    let m = (id - 4017) as u32;
    let repeater = RedstoneRepeater {
        delay: (m / 16 + 1) as u8,
        facing: BlockDirection::spec_from_id((m / 4 % 4) as u32),
        locked: m / 2 % 2 == 0,
        powered: m % 2 == 0,
    };
    assert(Block::spec_from_state(id) == Block::RedstoneRepeater(repeater));
    assert(repeater.facing.spec_id() == n / 4 % 4);
    assert(repeater.delay == n / 16 + 1);
    assert(n == (n / 16) * 16 + (n / 4 % 4) * 4 + (n / 2 % 2) * 2 + n % 2);
}

proof fn lemma_comparator_id(n: int)
    requires
        0 <= n <= 15,
    ensures
        Block::spec_from_state((n + 6142) as u32).spec_id() == n + 6142,
{
    let id = (n + 6142) as u32;
    let m = (id - 6142) as u32;
    let comparator = RedstoneComparator {
        facing: BlockDirection::spec_from_id((m / 4) as u32),
        mode: ComparatorMode::spec_from_id((m / 2 % 2) as u32),
        powered: m % 2 == 0,
    };
    assert(Block::spec_from_state(id) == Block::RedstoneComparator(comparator));
    assert(comparator.facing.spec_id() == n / 4);
    assert(comparator.mode.spec_id() == n / 2 % 2);
    assert(n == (n / 4) * 4 + (n / 2 % 2) * 2 + n % 2);
}

proof fn lemma_wire_offset(wire: RedstoneWire)
    requires
        wire.power <= 15,
    ensures
        0 <= wire.spec_offset() <= 1295,
        wire.spec_offset() % 3 == wire.west.spec_id(),
        wire.spec_offset() % 9 / 3 == wire.south.spec_id(),
        wire.spec_offset() % 144 / 9 == wire.power,
        wire.spec_offset() % 432 / 144 == wire.north.spec_id(),
        wire.spec_offset() / 432 == wire.east.spec_id(),
{
    let e = wire.east.spec_id() as int;
    let n = wire.north.spec_id() as int;
    let p = wire.power as int;
    let s = wire.south.spec_id() as int;
    let w = wire.west.spec_id() as int;
    assert(0 <= e < 3 && 0 <= n < 3 && 0 <= s < 3 && 0 <= w < 3 && 0 <= p < 16);
    lemma_mixed_radix(e, n, p, s, w);
}

proof fn lemma_mixed_radix(e: int, n: int, p: int, s: int, w: int)
    requires
        0 <= e < 3,
        0 <= n < 3,
        0 <= p < 16,
        0 <= s < 3,
        0 <= w < 3,
    ensures
        ({
            let k = e * 432 + n * 144 + p * 9 + s * 3 + w;
            &&& 0 <= k <= 1295
            &&& k % 3 == w
            &&& k % 9 / 3 == s
            &&& k % 144 / 9 == p
            &&& k % 432 / 144 == n
            &&& k / 432 == e
        }),
{
    let k = e * 432 + n * 144 + p * 9 + s * 3 + w;
    let a = s * 3 + w;
    let b = p * 9 + a;
    let c = n * 144 + b;
    assert(0 <= a < 9 && 0 <= b < 144 && 0 <= c < 432);
    assert(k / 432 == e && k % 432 == c);
    assert(c / 144 == n && c % 144 == b);
    assert(k % 144 == b) by {
        assert(k == (e * 3 + n) * 144 + b);
    }
    assert(b / 9 == p && b % 9 == a);
    assert(k % 9 == a) by {
        assert(k == (e * 48 + n * 16 + p) * 9 + a);
    }
    assert(a / 3 == s && a % 3 == w);
    assert(k % 3 == w) by {
        assert(k == (e * 144 + n * 48 + p * 3 + s) * 3 + w);
    }
}

proof fn lemma_face_offset(f: int, d: int, powered: bool)
    requires
        0 <= f < 3,
        0 <= d < 4,
    ensures
        ({
            let k = f * 8 + d * 2 + flag_id(powered);
            &&& 0 <= k < 24
            &&& k / 8 == f
            &&& k / 2 % 4 == d
            &&& (k % 2 == 0) == powered
        }),
{
}

proof fn lemma_repeater_offset(repeater: RedstoneRepeater)
    requires
        1 <= repeater.delay <= 4,
    ensures
        0 <= repeater.spec_offset() < 64,
        repeater.spec_offset() / 16 + 1 == repeater.delay,
        repeater.spec_offset() / 4 % 4 == repeater.facing.spec_id(),
        (repeater.spec_offset() / 2 % 2 == 0) == repeater.locked,
        (repeater.spec_offset() % 2 == 0) == repeater.powered,
{
    let d = repeater.facing.spec_id() as int;
    assert(0 <= d < 4);
}


/// A block as the world holds it: a block of the table, or one of the three interface
/// kinds that the table takes for plain blocks.
#[derive(Clone, Copy, Debug, PartialEq, Eq, Structural, Hash)]
pub enum WorldBlock {
    Plain(Block),
    StoneButton(StoneButton),
    StonePressurePlate(bool),
    IronTrapdoor(BlockDirection, TrapdoorHalf, bool),
}

impl WorldBlock {
    /// The world block that a state number stands for: a stone pressure plate for 3805
    /// and 3806, a stone button for 3895 to 3918, an iron trapdoor for 7001 to 7064, and
    /// the block of the table for every other number.
    pub open spec fn spec_from_state(id: u32) -> WorldBlock {
        if 3805 <= id <= 3806 {
            WorldBlock::StonePressurePlate(id == 3805)
        } else if 3895 <= id <= 3918 {
            let n = (id - 3895) as u32;
            WorldBlock::StoneButton(
                StoneButton {
                    face: ButtonFace::spec_from_id((n / 8) as u32),
                    facing: BlockDirection::spec_from_id((n / 2 % 4) as u32),
                    powered: n % 2 == 0,
                },
            )
        } else if 7001 <= id <= 7064 {
            let n = (id - 7001) as u32;
            WorldBlock::IronTrapdoor(
                BlockDirection::spec_from_id((n / 16) as u32),
                TrapdoorHalf::spec_from_id((n / 8 % 2) as u32),
                n / 2 % 2 == 0,
            )
        } else {
            WorldBlock::Plain(Block::spec_from_state(id))
        }
    }

    pub fn from_block_state(id: u32) -> (block: WorldBlock)
        ensures
            block == Self::spec_from_state(id),
    {
        if 3805 <= id && id <= 3806 {
            WorldBlock::StonePressurePlate(id == 3805)
        } else if 3895 <= id && id <= 3918 {
            let n: u32 = id - 3895;
            let face = ButtonFace::from_id(n / 8);
            let facing = BlockDirection::from_id(n / 2 % 4);
            WorldBlock::StoneButton(StoneButton::new(face, facing, n % 2 == 0))
        } else if 7001 <= id && id <= 7064 {
            let n: u32 = id - 7001;
            WorldBlock::IronTrapdoor(
                BlockDirection::from_id(n / 16),
                TrapdoorHalf::from_id(n / 8 % 2),
                n / 2 % 2 == 0,
            )
        } else {
            WorldBlock::Plain(Block::from_block_state(id))
        }
    }

    /// The flag that the block holds, if it holds one: lit or powered.
    pub open spec fn powered(self) -> Option<bool> {
        match self {
            WorldBlock::Plain(block) => powered_flag(block),
            WorldBlock::StoneButton(button) => Some(button.powered),
            WorldBlock::StonePressurePlate(powered) => Some(powered),
            WorldBlock::IronTrapdoor(_, _, powered) => Some(powered),
        }
    }

    /// The block with its flag set; the block itself where it holds no flag.
    pub open spec fn with_powered(self, flag: bool) -> WorldBlock {
        match self {
            WorldBlock::Plain(block) => WorldBlock::Plain(with_powered_flag(block, flag)),
            WorldBlock::StoneButton(button) => WorldBlock::StoneButton(
                StoneButton { powered: flag, ..button },
            ),
            WorldBlock::StonePressurePlate(_) => WorldBlock::StonePressurePlate(flag),
            WorldBlock::IronTrapdoor(facing, half, _) => WorldBlock::IronTrapdoor(facing, half, flag),
        }
    }
}

/// The flag that a block holds, for writing: what is written to it is the flag of the
/// block afterwards, and nothing else of the block changes.
pub fn block_powered_mut(block: &mut WorldBlock) -> (flag: Option<&mut bool>)
    ensures
        match flag {
            Some(held) => old(block).powered() == Some(*held) && *final(block) == old(
                block,
            ).with_powered(*final(held)),
            None => old(block).powered() is None && *final(block) == *old(block),
        },
{
    match block {
        WorldBlock::Plain(Block::RedstoneComparator(comparator)) => Some(&mut comparator.powered),
        WorldBlock::Plain(Block::RedstoneTorch(lit)) => Some(lit),
        WorldBlock::Plain(Block::RedstoneWallTorch(lit, _)) => Some(lit),
        WorldBlock::Plain(Block::RedstoneRepeater(repeater)) => Some(&mut repeater.powered),
        WorldBlock::Plain(Block::Lever(lever)) => Some(&mut lever.powered),
        WorldBlock::Plain(Block::RedstoneLamp(lit)) => Some(lit),
        WorldBlock::StoneButton(button) => Some(&mut button.powered),
        WorldBlock::StonePressurePlate(powered) => Some(powered),
        WorldBlock::IronTrapdoor(_, _, powered) => Some(powered),
        _ => None,
    }
}


/// What the host has to do to the world after a block was placed, destroyed or ticked.
#[derive(Clone, Copy, Debug, PartialEq, Eq, Structural)]
pub enum WorldAction {
    /// Put the block at the position.
    SetBlock(BlockPos, Block),
    /// Drop what the block at the position keeps beside its state.
    DeleteBlockEntity(BlockPos),
    /// Let the blocks around the position check whether they can stay.
    ChangeSurrounding(BlockPos),
    /// Let the blocks around the position react.
    UpdateSurrounding(BlockPos),
    /// Let the neighbours of the dust at the position, and their neighbours, react.
    UpdateWireNeighbors(BlockPos),
    /// Let the repeater at the position take its next state.
    TickRepeater(BlockPos),
    /// Let the comparator at the position take its next state.
    TickComparator(BlockPos),
}

/// Where a player points when using an item on a block.
#[derive(Clone, Copy, Debug, PartialEq, Eq, Structural)]
pub struct UseOnBlockContext {
    pub block_face: BlockFace,
    pub player_direction: BlockDirection,
}

/// What the world says of the place where a block is to stand.
#[derive(Clone, Copy, Debug, PartialEq, Eq, Structural)]
pub struct PlacementFacts {
    /// Whether a lamp there would be lit.
    pub lamp_lit: bool,
    /// The state that a repeater would have there.
    pub repeater: RedstoneRepeater,
    /// The state that dust would have there.
    pub wire: RedstoneWire,
    /// The block behind the face through which the new block hangs on its support.
    pub support: Block,
}

impl Block {
    /// What placing the block at `pos` does: the block is set, the blocks around it check
    /// whether they can stay, and then they react; around dust, the neighbours of the
    /// neighbours react as well.
    pub open spec fn spec_placed(self, pos: BlockPos) -> Seq<WorldAction> {
        seq![
            WorldAction::SetBlock(pos, self),
            WorldAction::ChangeSurrounding(pos),
            if self is RedstoneWire {
                WorldAction::UpdateWireNeighbors(pos)
            } else {
                WorldAction::UpdateSurrounding(pos)
            },
        ]
    }

    pub fn place_in_plot(self, pos: BlockPos) -> (actions: Vec<WorldAction>)
        ensures
            actions@ == self.spec_placed(pos),
    {
        let mut actions: Vec<WorldAction> = Vec::new();
        actions.push(WorldAction::SetBlock(pos, self));
        actions.push(WorldAction::ChangeSurrounding(pos));
        match self {
            Block::RedstoneWire(_) => actions.push(WorldAction::UpdateWireNeighbors(pos)),
            _ => actions.push(WorldAction::UpdateSurrounding(pos)),
        }
        assert(actions@ =~= self.spec_placed(pos));
        actions
    }

    /// The face behind which the blocks stand that have to react when the block is
    /// destroyed: for a lever the block that carried it, for any other block none.
    pub open spec fn spec_carrier_face(self) -> Option<BlockFace> {
        match self {
            Block::Lever(_) => self.spec_support_face(),
            _ => None,
        }
    }

    /// What destroying the block at `pos` does: its entity goes where it has one, air
    /// takes its place, and the blocks around it check and react; for a lever, the blocks
    /// around the block that carried it.
    pub open spec fn spec_destroyed(self, pos: BlockPos) -> Seq<WorldAction> {
        let around = match self.spec_carrier_face() {
            Some(face) => pos.spec_offset(face),
            None => pos,
        };
        (if self is RedstoneComparator {
            seq![WorldAction::DeleteBlockEntity(pos)]
        } else {
            Seq::empty()
        }) + seq![
            WorldAction::SetBlock(pos, Block::Air),
            WorldAction::ChangeSurrounding(around),
            if self is RedstoneWire {
                WorldAction::UpdateWireNeighbors(around)
            } else {
                WorldAction::UpdateSurrounding(around)
            },
        ]
    }

    pub fn destroy(self, pos: BlockPos) -> (actions: Vec<WorldAction>)
        requires
            self.spec_carrier_face() matches Some(face) ==> pos.can_offset(face),
        ensures
            actions@ == self.spec_destroyed(pos),
    {
        let mut actions: Vec<WorldAction> = Vec::new();
        if self.has_block_entity() {
            actions.push(WorldAction::DeleteBlockEntity(pos));
        }
        let ghost head = actions@;
        actions.push(WorldAction::SetBlock(pos, Block::Air));
        match self {
            Block::RedstoneWire(_) => {
                actions.push(WorldAction::ChangeSurrounding(pos));
                actions.push(WorldAction::UpdateWireNeighbors(pos));
            },
            Block::Lever(_) => {
                let around = match self.support_face() {
                    Some(face) => pos.offset(face),
                    None => pos,
                };
                actions.push(WorldAction::ChangeSurrounding(around));
                actions.push(WorldAction::UpdateSurrounding(around));
            },
            _ => {
                actions.push(WorldAction::ChangeSurrounding(pos));
                actions.push(WorldAction::UpdateSurrounding(pos));
            },
        }
        assert(actions@ =~= self.spec_destroyed(pos));
        actions
    }

    /// What a tick does to the block at `pos`, given whether a torch there should be off
    /// and whether a lamp there should be lit: a repeater and a comparator take their next
    /// state; a torch goes off or on as it should, and its neighbours react; a lit lamp
    /// that should not be lit goes dark. Nothing happens to any other block.
    pub open spec fn spec_ticked(self, pos: BlockPos, torch_off: bool, lamp_lit: bool) -> Seq<
        WorldAction,
    > {
        match self {
            Block::RedstoneRepeater(_) => seq![WorldAction::TickRepeater(pos)],
            Block::RedstoneComparator(_) => seq![WorldAction::TickComparator(pos)],
            Block::RedstoneTorch(powered) => if powered == torch_off {
                seq![
                    WorldAction::SetBlock(pos, Block::RedstoneTorch(!powered)),
                    WorldAction::UpdateSurrounding(pos),
                ]
            } else {
                Seq::empty()
            },
            Block::RedstoneWallTorch(powered, direction) => if powered == torch_off {
                seq![
                    WorldAction::SetBlock(pos, Block::RedstoneWallTorch(!powered, direction)),
                    WorldAction::UpdateSurrounding(pos),
                ]
            } else {
                Seq::empty()
            },
            Block::RedstoneLamp(lit) => if lit && !lamp_lit {
                seq![WorldAction::SetBlock(pos, Block::RedstoneLamp(false))]
            } else {
                Seq::empty()
            },
            _ => Seq::empty(),
        }
    }

    pub fn tick(self, pos: BlockPos, torch_off: bool, lamp_lit: bool) -> (actions: Vec<WorldAction>)
        ensures
            actions@ == self.spec_ticked(pos, torch_off, lamp_lit),
    {
        let mut actions: Vec<WorldAction> = Vec::new();
        match self {
            Block::RedstoneRepeater(_) => actions.push(WorldAction::TickRepeater(pos)),
            Block::RedstoneComparator(_) => actions.push(WorldAction::TickComparator(pos)),
            Block::RedstoneTorch(powered) => {
                if powered == torch_off {
                    actions.push(WorldAction::SetBlock(pos, Block::RedstoneTorch(!powered)));
                    actions.push(WorldAction::UpdateSurrounding(pos));
                }
            },
            Block::RedstoneWallTorch(powered, direction) => {
                if powered == torch_off {
                    actions.push(
                        WorldAction::SetBlock(pos, Block::RedstoneWallTorch(!powered, direction)),
                    );
                    actions.push(WorldAction::UpdateSurrounding(pos));
                }
            },
            Block::RedstoneLamp(lit) => {
                if lit && !lamp_lit {
                    actions.push(WorldAction::SetBlock(pos, Block::RedstoneLamp(false)));
                }
            },
            _ => {},
        }
        assert(actions@ =~= self.spec_ticked(pos, torch_off, lamp_lit));
        actions
    }

    /// The block that an item makes where a player points, before the place is checked:
    /// glass, sandstone, wool and concrete by their colour, a lever on the face it was
    /// put on, a torch standing or on a wall, a lamp, a redstone block, a repeater, a
    /// comparator that looks at the player, and dust. Any other item makes sandstone.
    pub open spec fn spec_item_block(item_id: u32, context: UseOnBlockContext, facts: PlacementFacts) -> Block {
        if item_id == 64 {
            Block::Transparent(230)
        } else if item_id == 68 {
            Block::Solid(245)
        } else if 82 <= item_id <= 97 {
            Block::Solid((item_id + 1301) as u32)
        } else if item_id == 164 {
            Block::Lever(
                Lever {
                    face: match context.block_face {
                        BlockFace::Top => LeverFace::Floor,
                        BlockFace::Bottom => LeverFace::Ceiling,
                        _ => LeverFace::Wall,
                    },
                    facing: match context.block_face {
                        BlockFace::Top => context.player_direction,
                        BlockFace::Bottom => context.player_direction,
                        BlockFace::North => BlockDirection::North,
                        BlockFace::South => BlockDirection::South,
                        BlockFace::East => BlockDirection::East,
                        BlockFace::West => BlockDirection::West,
                    },
                    powered: false,
                },
            )
        } else if item_id == 173 {
            match context.block_face {
                BlockFace::Top => Block::RedstoneTorch(true),
                BlockFace::Bottom => Block::RedstoneTorch(true),
                BlockFace::North => Block::RedstoneWallTorch(true, BlockDirection::North),
                BlockFace::South => Block::RedstoneWallTorch(true, BlockDirection::South),
                BlockFace::East => Block::RedstoneWallTorch(true, BlockDirection::East),
                BlockFace::West => Block::RedstoneWallTorch(true, BlockDirection::West),
            }
        } else if item_id == 234 {
            Block::RedstoneLamp(facts.lamp_lit)
        } else if item_id == 272 {
            Block::RedstoneBlock
        } else if 413 <= item_id <= 428 {
            Block::Solid((item_id + 8489) as u32)
        } else if item_id == 513 {
            Block::RedstoneRepeater(facts.repeater)
        } else if item_id == 514 {
            Block::RedstoneComparator(
                RedstoneComparator {
                    facing: context.player_direction.spec_opposite(),
                    mode: ComparatorMode::Compare,
                    powered: false,
                },
            )
        } else if item_id == 600 {
            Block::RedstoneWire(facts.wire)
        } else {
            Block::Solid(245)
        }
    }

    /// The block that an item makes where a player points: the block of the item where it
    /// can stand there, and air where it cannot.
    pub fn get_state_for_placement(item_id: u32, context: &UseOnBlockContext, facts: &PlacementFacts) -> (block: Block)
        ensures
            block == if Self::spec_item_block(item_id, *context, *facts).spec_support_face() is None
                || facts.support.spec_is_cube() {
                Self::spec_item_block(item_id, *context, *facts)
            } else {
                Block::Air
            },
    {
        let block = if item_id == 64 {
            Block::Transparent(230)
        } else if item_id == 68 {
            Block::Solid(245)
        } else if 82 <= item_id && item_id <= 97 {
            Block::Solid(item_id + 1301)
        } else if item_id == 164 {
            let face = match context.block_face {
                BlockFace::Top => LeverFace::Floor,
                BlockFace::Bottom => LeverFace::Ceiling,
                _ => LeverFace::Wall,
            };
            let facing = match face {
                LeverFace::Wall => context.block_face.to_direction(),
                _ => context.player_direction,
            };
            Block::Lever(Lever::new(face, facing, false))
        } else if item_id == 173 {
            match context.block_face {
                BlockFace::Top => Block::RedstoneTorch(true),
                BlockFace::Bottom => Block::RedstoneTorch(true),
                face => Block::RedstoneWallTorch(true, face.to_direction()),
            }
        } else if item_id == 234 {
            Block::RedstoneLamp(facts.lamp_lit)
        } else if item_id == 272 {
            Block::RedstoneBlock
        } else if 413 <= item_id && item_id <= 428 {
            Block::Solid(item_id + 8489)
        } else if item_id == 513 {
            Block::RedstoneRepeater(facts.repeater)
        } else if item_id == 514 {
            Block::RedstoneComparator(
                RedstoneComparator::new(
                    context.player_direction.opposite(),
                    ComparatorMode::Compare,
                    false,
                ),
            )
        } else if item_id == 600 {
            Block::RedstoneWire(facts.wire)
        } else {
            Block::Solid(245)
        };
        if block.is_valid_position(facts.support) {
            block
        } else {
            Block::Air
        }
    }
}

} // verus!
