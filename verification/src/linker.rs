//! The linker: the table that binds the interface blocks of the world to the bits of the
//! input and output streams, in the order in which the blocks were added.

use vstd::prelude::*;
use crate::blocks::{
    Block, BlockDirection, BlockPos, ButtonFace, Lever, LeverFace, RedstoneWire, RedstoneWireSide,
    StoneButton, TrapdoorHalf, WorldBlock,
};
use crate::graph::{CompileGraph, CompileNode};
use crate::interface::{
    lemma_stream_value_bound, lemma_weight_8, stream_bit, stream_value, weight, BinaryIterator,
};

verus! {

/// The kind of an interface block, with what is needed to build the block again.
#[derive(Clone, Copy, Debug, PartialEq, Eq, Structural)]
#[allow(inconsistent_fields)]
pub enum IntfType {
    Lamp,
    Trapdoor { facing: BlockDirection, half: TrapdoorHalf },
    HexLamp,
    Lever { face: LeverFace, facing: BlockDirection },
    Button { face: ButtonFace, facing: BlockDirection },
    PressurePlate,
}

/// One interface block: its kind, where it stands, and its state.
#[derive(Clone, Copy, Debug, PartialEq, Eq, Structural)]
pub struct IntfBlock {
    pub ty: IntfType,
    pub pos: BlockPos,
    pub state: u8,
}

impl IntfType {
    /// The number of stream bits that a block of this kind takes: 4 for a hex lamp, else 1.
    pub open spec fn spec_bit_count(self) -> u8 {
        match self {
            IntfType::HexLamp => 4,
            _ => 1,
        }
    }

    /// A state cut down to the bits of this kind.
    pub open spec fn masked(self, state: u8) -> u8 {
        match self {
            IntfType::HexLamp => state & 0x0F,
            _ => state & 0x01,
        }
    }

    /// Whether the kind takes its state from the world: levers, buttons, pressure plates.
    pub open spec fn is_input_kind(self) -> bool {
        self is Lever || self is Button || self is PressurePlate
    }
}

/// 1 for a set flag, 0 for a cleared one.
pub open spec fn flag_state(set: bool) -> u8 {
    if set {
        1
    } else {
        0
    }
}

fn flag(set: bool) -> (state: u8)
    ensures
        state == flag_state(set),
{
    if set {
        1
    } else {
        0
    }
}

impl IntfBlock {
    /// The interface block that a world block makes, if it is of an interface kind: a
    /// lamp, an iron trapdoor, dust without connections, a lever, a stone button, a stone
    /// pressure plate.
    pub open spec fn spec_new(block: WorldBlock, pos: BlockPos) -> Option<IntfBlock> {
        match block {
            WorldBlock::Plain(Block::RedstoneLamp(lit)) => Some(
                IntfBlock { ty: IntfType::Lamp, pos, state: flag_state(lit) },
            ),
            WorldBlock::IronTrapdoor(facing, half, powered) => Some(
                IntfBlock { ty: IntfType::Trapdoor { facing, half }, pos, state: flag_state(powered) },
            ),
            WorldBlock::Plain(Block::RedstoneWire(wire)) => if wire.is_dot() {
                Some(IntfBlock { ty: IntfType::HexLamp, pos, state: wire.power })
            } else {
                None
            },
            WorldBlock::Plain(Block::Lever(lever)) => Some(
                IntfBlock {
                    ty: IntfType::Lever { face: lever.face, facing: lever.facing },
                    pos,
                    state: flag_state(lever.powered),
                },
            ),
            WorldBlock::StoneButton(button) => Some(
                IntfBlock {
                    ty: IntfType::Button { face: button.face, facing: button.facing },
                    pos,
                    state: flag_state(button.powered),
                },
            ),
            WorldBlock::StonePressurePlate(powered) => Some(
                IntfBlock { ty: IntfType::PressurePlate, pos, state: flag_state(powered) },
            ),
            _ => None,
        }
    }

    pub fn new(block: WorldBlock, pos: BlockPos) -> (intf: Option<IntfBlock>)
        ensures
            intf == Self::spec_new(block, pos),
    {
        match block {
            WorldBlock::Plain(Block::RedstoneLamp(lit)) => Some(
                IntfBlock { ty: IntfType::Lamp, pos, state: flag(lit) },
            ),
            WorldBlock::IronTrapdoor(facing, half, powered) => Some(
                IntfBlock { ty: IntfType::Trapdoor { facing, half }, pos, state: flag(powered) },
            ),
            WorldBlock::Plain(Block::RedstoneWire(wire)) => {
                let dot = match (wire.north, wire.south, wire.east, wire.west) {
                    (
                        RedstoneWireSide::Unconnected,
                        RedstoneWireSide::Unconnected,
                        RedstoneWireSide::Unconnected,
                        RedstoneWireSide::Unconnected,
                    ) => true,
                    _ => false,
                };
                if dot {
                    Some(IntfBlock { ty: IntfType::HexLamp, pos, state: wire.power })
                } else {
                    None
                }
            },
            WorldBlock::Plain(Block::Lever(lever)) => Some(
                IntfBlock {
                    ty: IntfType::Lever { face: lever.face, facing: lever.facing },
                    pos,
                    state: flag(lever.powered),
                },
            ),
            WorldBlock::StoneButton(button) => Some(
                IntfBlock {
                    ty: IntfType::Button { face: button.face, facing: button.facing },
                    pos,
                    state: flag(button.powered),
                },
            ),
            WorldBlock::StonePressurePlate(powered) => Some(
                IntfBlock { ty: IntfType::PressurePlate, pos, state: flag(powered) },
            ),
            _ => None,
        }
    }

    /// Whether the state fits the bits of the kind.
    pub open spec fn valid(self) -> bool {
        match self.ty {
            IntfType::HexLamp => self.state <= 15,
            _ => self.state <= 1,
        }
    }

    pub fn bit_count(&self) -> (bits: u8)
        ensures
            bits == self.ty.spec_bit_count(),
            bits == 1 || bits == 4,
    {
        match self.ty {
            IntfType::HexLamp => 4,
            _ => 1,
        }
    }

    /// Sets the state, cut down to the bits of the kind.
    pub fn set_state(&mut self, state: u8)
        ensures
            *final(self) == (IntfBlock { state: old(self).ty.masked(state), ..*old(self) }),
            final(self).valid(),
    {
        proof {
            assert(state & 0x0F <= 15) by (bit_vector);
            assert(state & 0x01 <= 1) by (bit_vector);
        }
        self.state = match self.ty {
            IntfType::HexLamp => state & 0x0F,
            _ => state & 0x01,
        };
    }

    /// The world block in the state that the interface block holds: lit or powered
    /// where the state is 1, and dust with the state as its power.
    pub open spec fn spec_block(self) -> WorldBlock {
        match self.ty {
            IntfType::Lamp => WorldBlock::Plain(Block::RedstoneLamp(self.state == 1)),
            IntfType::Trapdoor { facing, half } => WorldBlock::IronTrapdoor(facing, half, self.state == 1),
            IntfType::HexLamp => WorldBlock::Plain(
                Block::RedstoneWire(
                    RedstoneWire {
                        north: RedstoneWireSide::Unconnected,
                        south: RedstoneWireSide::Unconnected,
                        east: RedstoneWireSide::Unconnected,
                        west: RedstoneWireSide::Unconnected,
                        power: self.state,
                    },
                ),
            ),
            IntfType::Lever { face, facing } => WorldBlock::Plain(
                Block::Lever(Lever { face, facing, powered: self.state == 1 }),
            ),
            IntfType::Button { face, facing } => WorldBlock::StoneButton(
                StoneButton { face, facing, powered: self.state == 1 },
            ),
            IntfType::PressurePlate => WorldBlock::StonePressurePlate(self.state == 1),
        }
    }

    pub fn get_block(&self) -> (block: WorldBlock)
        ensures
            block == self.spec_block(),
    {
        match self.ty {
            IntfType::Lamp => WorldBlock::Plain(Block::RedstoneLamp(self.state == 1)),
            IntfType::Trapdoor { facing, half } => WorldBlock::IronTrapdoor(facing, half, self.state == 1),
            IntfType::HexLamp => {
                let n = RedstoneWireSide::Unconnected;
                WorldBlock::Plain(Block::RedstoneWire(RedstoneWire::new(n, n, n, n, self.state)))
            },
            IntfType::Lever { face, facing } => WorldBlock::Plain(
                Block::Lever(Lever::new(face, facing, self.state == 1)),
            ),
            IntfType::Button { face, facing } => WorldBlock::StoneButton(
                StoneButton::new(face, facing, self.state == 1),
            ),
            IntfType::PressurePlate => WorldBlock::StonePressurePlate(self.state == 1),
        }
    }

    /// Whether a block counts as an input: everything but lamps, trapdoors and dust.
    pub open spec fn spec_is_input(block: WorldBlock) -> bool {
        match block {
            WorldBlock::Plain(Block::RedstoneLamp(_)) => false,
            WorldBlock::Plain(Block::RedstoneWire(_)) => false,
            WorldBlock::IronTrapdoor(_, _, _) => false,
            _ => true,
        }
    }

    pub fn is_input(block: WorldBlock) -> (input: bool)
        ensures
            input == Self::spec_is_input(block),
    {
        match block {
            WorldBlock::Plain(Block::RedstoneLamp(_)) => false,
            WorldBlock::Plain(Block::RedstoneWire(_)) => false,
            WorldBlock::IronTrapdoor(_, _, _) => false,
            _ => true,
        }
    }

    /// Building the block of an interface block and reading it again gives the interface
    /// block back, where its state fits its kind.
    pub proof fn lemma_block_round_trip(self)
        requires
            self.valid(),
        ensures
            Self::spec_new(self.spec_block(), self.pos) == Some(self),
            Self::spec_is_input(self.spec_block()) == self.ty.is_input_kind(),
    {
    }
}

/// The number of stream bits that the first `n` blocks of a table take: the offset of
/// block `n` in its stream.
pub open spec fn bit_total(blocks: Seq<IntfBlock>, n: nat) -> nat
    decreases n,
{
    if n == 0 || n > blocks.len() {
        0
    } else {
        bit_total(blocks, (n - 1) as nat) + blocks[n - 1].ty.spec_bit_count() as nat
    }
}

/// Each block starts where the block before it ends, and offsets never fall.
pub proof fn lemma_offsets(blocks: Seq<IntfBlock>, i: nat)
    requires
        i < blocks.len(),
    ensures
        bit_total(blocks, i + 1) == bit_total(blocks, i) + blocks[i as int].ty.spec_bit_count(),
        bit_total(blocks, i) < bit_total(blocks, i + 1),
        bit_total(blocks, i + 1) <= 4 * (i + 1),
    decreases i,
{
    if i > 0 {
        lemma_offsets(blocks, (i - 1) as nat);
        assert(bit_total(blocks, i) <= 4 * i);
    } else {
        assert(bit_total(blocks, 0) == 0);
    }
    assert(blocks[i as int].ty.spec_bit_count() <= 4);
}

/// Offsets rise with the index.
pub proof fn lemma_offsets_rise(blocks: Seq<IntfBlock>, i: nat, j: nat)
    requires
        i <= j <= blocks.len(),
    ensures
        bit_total(blocks, i) <= bit_total(blocks, j),
    decreases j - i,
{
    if i < j {
        lemma_offsets(blocks, (j - 1) as nat);
        lemma_offsets_rise(blocks, i, (j - 1) as nat);
    }
}

/// The offsets of a table do not depend on the states of its blocks.
pub proof fn lemma_offsets_ignore_state(a: Seq<IntfBlock>, b: Seq<IntfBlock>, n: nat)
    requires
        a.len() == b.len(),
        forall|i: int| 0 <= i < a.len() ==> (#[trigger] a[i]).ty == b[i].ty,
    ensures
        bit_total(a, n) == bit_total(b, n),
    decreases n,
{
    if n > 0 && n <= a.len() {
        lemma_offsets_ignore_state(a, b, (n - 1) as nat);
    }
}

/// The first block of a table, from `from` on, that stands at `pos`.
pub open spec fn first_at(blocks: Seq<IntfBlock>, pos: BlockPos, from: nat) -> Option<nat>
    decreases blocks.len() - from,
{
    if from >= blocks.len() {
        None
    } else if blocks[from as int].pos == pos {
        Some(from)
    } else {
        first_at(blocks, pos, from + 1)
    }
}

pub proof fn lemma_first_at(blocks: Seq<IntfBlock>, pos: BlockPos, from: nat)
    ensures
        first_at(blocks, pos, from) matches Some(i) ==> from <= i < blocks.len() && blocks[i as int].pos
            == pos,
    decreases blocks.len() - from,
{
    if from < blocks.len() && blocks[from as int].pos != pos {
        lemma_first_at(blocks, pos, from + 1);
    }
}

/// A block with its state turned over, within the bits of its kind.
pub open spec fn toggled_block(block: IntfBlock) -> IntfBlock {
    IntfBlock { state: block.ty.masked(!block.state), ..block }
}

/// A table after the first block at `pos` was turned over; the same table where no block
/// stands there.
pub open spec fn toggled(blocks: Seq<IntfBlock>, pos: BlockPos) -> Seq<IntfBlock> {
    match first_at(blocks, pos, 0) {
        Some(i) => blocks.update(i as int, toggled_block(blocks[i as int])),
        None => blocks,
    }
}

proof fn lemma_first_at_keeps(a: Seq<IntfBlock>, b: Seq<IntfBlock>, pos: BlockPos, from: nat)
    requires
        a.len() == b.len(),
        forall|i: int| 0 <= i < a.len() ==> (#[trigger] a[i]).pos == b[i].pos,
    ensures
        first_at(a, pos, from) == first_at(b, pos, from),
    decreases a.len() - from,
{
    if from < a.len() && a[from as int].pos != pos {
        lemma_first_at_keeps(a, b, pos, from + 1);
    }
}

/// Turning the same input over twice restores every state.
pub proof fn lemma_toggle_twice(blocks: Seq<IntfBlock>, pos: BlockPos)
    requires
        forall|i: int| 0 <= i < blocks.len() ==> (#[trigger] blocks[i]).valid(),
    ensures
        toggled(toggled(blocks, pos), pos) == blocks,
{
    let once = toggled(blocks, pos);
    lemma_first_at(blocks, pos, 0);
    lemma_first_at_keeps(blocks, once, pos, 0);
    match first_at(blocks, pos, 0) {
        Some(i) => {
            let s = blocks[i as int].state;
            assert(blocks[i as int].valid());
            if blocks[i as int].ty is HexLamp {
                assert((!((!s) & 0x0Fu8)) & 0x0Fu8 == s) by (bit_vector)
                    requires
                        s <= 15,
                ;
            } else {
                assert((!((!s) & 0x01u8)) & 0x01u8 == s) by (bit_vector)
                    requires
                        s <= 1,
                ;
            }
            assert(toggled_block(toggled_block(blocks[i as int])) == blocks[i as int]);
            assert(toggled(once, pos) =~= blocks);
        },
        None => {},
    }
}

/// A block with the state that the stream holds for it at bit `index`: the value of its
/// bits, or 0 where the stream ends before them.
pub open spec fn read_block(block: IntfBlock, data: Seq<u8>, index: int) -> IntfBlock {
    let bits = block.ty.spec_bit_count();
    let raw = if index + bits <= 8 * data.len() {
        stream_value(data, index, bits as nat) as u8
    } else {
        0u8
    };
    IntfBlock { state: block.ty.masked(raw), ..block }
}

/// A table whose first `n` blocks took their states from a stream that starts at bit
/// `start`, each at its offset.
pub open spec fn read_outputs(outputs: Seq<IntfBlock>, data: Seq<u8>, start: int, n: nat) -> Seq<
    IntfBlock,
> {
    Seq::new(
        outputs.len(),
        |i: int|
            if i < n {
                read_block(outputs[i], data, start + bit_total(outputs, i as nat))
            } else {
                outputs[i]
            },
    )
}

/// The blocks of the world that a table stands for, outputs first, each at its position.
pub open spec fn changes(outputs: Seq<IntfBlock>, inputs: Seq<IntfBlock>) -> Seq<(BlockPos, WorldBlock)> {
    Seq::new(
        outputs.len() + inputs.len(),
        |i: int|
            if i < outputs.len() {
                (outputs[i].pos, outputs[i].spec_block())
            } else {
                (inputs[i - outputs.len()].pos, inputs[i - outputs.len()].spec_block())
            },
    )
}

/// Whether a stream, from bit `start` on, holds the state of every block of a table at
/// the offset of the block.
pub open spec fn serializes(data: Seq<u8>, start: int, outputs: Seq<IntfBlock>) -> bool {
    forall|i: int|
        0 <= i < outputs.len() ==> start + bit_total(outputs, i as nat) + (
        #[trigger] outputs[i]).ty.spec_bit_count() <= 8 * data.len() && stream_value(
            data,
            start + bit_total(outputs, i as nat),
            outputs[i].ty.spec_bit_count() as nat,
        ) == outputs[i].state
}

/// Reading a table from a stream that holds its states gives the table back.
pub proof fn lemma_read_serialized(data: Seq<u8>, start: int, outputs: Seq<IntfBlock>)
    requires
        serializes(data, start, outputs),
    ensures
        read_outputs(outputs, data, start, outputs.len()) == outputs,
        forall|i: int| 0 <= i < outputs.len() ==> (#[trigger] outputs[i]).valid(),
{
    let read = read_outputs(outputs, data, start, outputs.len());
    assert forall|i: int| 0 <= i < outputs.len() implies read[i] == outputs[i] && (
    #[trigger] outputs[i]).valid() by {
        let bits = outputs[i].ty.spec_bit_count();
        let s = outputs[i].state;
        lemma_stream_value_bound(data, start + bit_total(outputs, i as nat), bits as nat);
        lemma_weight_8();
        if outputs[i].ty is HexLamp {
            assert(s & 0x0Fu8 == s) by (bit_vector)
                requires
                    s < 16,
            ;
        } else {
            assert(s & 0x01u8 == s) by (bit_vector)
                requires
                    s < 2,
            ;
        }
    }
    assert(read =~= outputs);
}

/// The inputs of a table after a world block was added: one more at the end where the
/// block is an interface block that counts as an input.
pub open spec fn with_input(inputs: Seq<IntfBlock>, block: WorldBlock, pos: BlockPos) -> Seq<IntfBlock> {
    match IntfBlock::spec_new(block, pos) {
        Some(intf) => if IntfBlock::spec_is_input(block) {
            inputs.push(intf)
        } else {
            inputs
        },
        None => inputs,
    }
}

/// The outputs of a table after a world block was added: one more at the end where the
/// block is an interface block that counts as an output.
pub open spec fn with_output(outputs: Seq<IntfBlock>, block: WorldBlock, pos: BlockPos) -> Seq<IntfBlock> {
    match IntfBlock::spec_new(block, pos) {
        Some(intf) => if IntfBlock::spec_is_input(block) {
            outputs
        } else {
            outputs.push(intf)
        },
        None => outputs,
    }
}

/// The inputs of a table after the blocks of the first `n` nodes of a graph were added,
/// in the order of the nodes. A node without a block adds nothing.
pub open spec fn linked_inputs(inputs: Seq<IntfBlock>, nodes: Seq<CompileNode>, n: nat) -> Seq<IntfBlock>
    decreases n,
{
    if n == 0 || n > nodes.len() {
        inputs
    } else {
        let before = linked_inputs(inputs, nodes, (n - 1) as nat);
        match nodes[n - 1].block {
            Some((pos, id)) => with_input(before, WorldBlock::spec_from_state(id), pos),
            None => before,
        }
    }
}

/// The outputs of a table after the blocks of the first `n` nodes of a graph were added,
/// in the order of the nodes. A node without a block adds nothing.
pub open spec fn linked_outputs(outputs: Seq<IntfBlock>, nodes: Seq<CompileNode>, n: nat) -> Seq<
    IntfBlock,
>
    decreases n,
{
    if n == 0 || n > nodes.len() {
        outputs
    } else {
        let before = linked_outputs(outputs, nodes, (n - 1) as nat);
        match nodes[n - 1].block {
            Some((pos, id)) => with_output(before, WorldBlock::spec_from_state(id), pos),
            None => before,
        }
    }
}

/// The table of the interface blocks of one circuit.
#[derive(Clone, Debug, PartialEq, Eq)]
pub struct Linker {
    pub name: String,
    pub outputs: Vec<IntfBlock>,
    pub output_bits: u32,
    pub inputs: Vec<IntfBlock>,
    pub input_bits: u32,
}

impl Default for Linker {
    fn default() -> (link: Linker)
        ensures
            link.wf(),
            link.name@.len() == 0,
            link.outputs@.len() == 0,
            link.inputs@.len() == 0,
    {
        Linker::new(String::new())
    }
}

impl Linker {
    /// The bit counts are the sums over the two tables.
    pub open spec fn wf(&self) -> bool {
        &&& self.output_bits == bit_total(self.outputs@, self.outputs@.len())
        &&& self.input_bits == bit_total(self.inputs@, self.inputs@.len())
    }

    /// An empty table under a name.
    pub fn new(name: String) -> (link: Linker)
        ensures
            link.wf(),
            link.name == name,
            link.outputs@.len() == 0,
            link.inputs@.len() == 0,
            link.output_bits == 0,
            link.input_bits == 0,
    {
        Linker { name, outputs: Vec::new(), output_bits: 0, inputs: Vec::new(), input_bits: 0 }
    }

    /// Adds a world block to the table where it is of an interface kind: at the end of
    /// the inputs or of the outputs. Any other block changes nothing.
    pub fn add_block(&mut self, block: WorldBlock, pos: BlockPos)
        requires
            old(self).wf(),
            old(self).output_bits <= u32::MAX - 4,
            old(self).input_bits <= u32::MAX - 4,
        ensures
            final(self).wf(),
            final(self).name == old(self).name,
            final(self).inputs@ == with_input(old(self).inputs@, block, pos),
            final(self).outputs@ == with_output(old(self).outputs@, block, pos),
    {
        match IntfBlock::new(block, pos) {
            Some(intf) => {
                if IntfBlock::is_input(block) {
                    self.input_bits = self.input_bits + intf.bit_count() as u32;
                    self.inputs.push(intf);
                    proof {
                        lemma_offsets_prefix(old(self).inputs@, self.inputs@, old(self).inputs@.len());
                    }
                } else {
                    self.output_bits = self.output_bits + intf.bit_count() as u32;
                    self.outputs.push(intf);
                    proof {
                        lemma_offsets_prefix(
                            old(self).outputs@,
                            self.outputs@,
                            old(self).outputs@.len(),
                        );
                    }
                }
            },
            None => {},
        }
    }

    /// The number of bytes that hold the output bits.
    pub fn get_output_bytes(&self) -> (bytes: usize)
        ensures
            bytes == (self.output_bits + 7) / 8,
    {
        ((self.output_bits as u64 + 7) / 8) as usize
    }

    /// The number of bytes that hold the input bits.
    pub fn get_input_bytes(&self) -> (bytes: usize)
        ensures
            bytes == (self.input_bits + 7) / 8,
    {
        ((self.input_bits as u64 + 7) / 8) as usize
    }

    /// Turns over the first input at `pos` and returns its bit offset, its kind code 0,
    /// and its new state; three zeros where no input stands there.
    pub fn toggle_input(&mut self, pos: BlockPos) -> (toggled_input: (u32, u8, u8))
        requires
            old(self).wf(),
        ensures
            final(self).wf(),
            final(self).name == old(self).name,
            final(self).outputs == old(self).outputs,
            final(self).output_bits == old(self).output_bits,
            final(self).input_bits == old(self).input_bits,
            final(self).inputs@ == toggled(old(self).inputs@, pos),
            toggled_input == match first_at(old(self).inputs@, pos, 0) {
                Some(i) => (
                    bit_total(old(self).inputs@, i) as u32,
                    0u8,
                    toggled_block(old(self).inputs@[i as int]).state,
                ),
                None => (0u32, 0u8, 0u8),
            },
    {
        let mut id: u32 = 0;
        let mut i: usize = 0;
        while i < self.inputs.len()
            invariant
                *self == *old(self),
                self.wf(),
                i <= self.inputs@.len(),
                id == bit_total(self.inputs@, i as nat),
                first_at(self.inputs@, pos, 0) == first_at(self.inputs@, pos, i as nat),
            decreases self.inputs.len() - i,
        {
            let mut input = self.inputs[i];
            proof {
                lemma_offsets(self.inputs@, i as nat);
                lemma_offsets_rise(self.inputs@, (i + 1) as nat, self.inputs@.len());
            }
            if input.pos == pos {
                input.set_state(!input.state);
                self.inputs.set(i, input);
                proof {
                    assert(self.inputs@ =~= toggled(old(self).inputs@, pos));
                    lemma_offsets_ignore_state(old(self).inputs@, self.inputs@, self.inputs@.len());
                }
                return (id, 0, input.state);
            }
            id = id + input.bit_count() as u32;
            i += 1;
        }
        (0, 0, 0)
    }

    /// Takes the state of each output from the stream, in the order of the table and as
    /// many bits as its kind has, and returns the blocks of all outputs and then of all
    /// inputs, each at its position. An output for which the stream has no bits left
    /// gets the state 0.
    pub fn get_blocks_to_change(&mut self, data: &mut BinaryIterator) -> (blocks: Vec<(BlockPos, WorldBlock)>)
        requires
            old(self).wf(),
            old(data).position() + old(self).output_bits <= usize::MAX,
        ensures
            final(self).wf(),
            final(self).name == old(self).name,
            final(self).inputs == old(self).inputs,
            final(self).output_bits == old(self).output_bits,
            final(self).input_bits == old(self).input_bits,
            final(data).data@ == old(data).data@,
            final(data).position() == old(data).position() + old(self).output_bits,
            final(self).outputs@ == read_outputs(
                old(self).outputs@,
                old(data).data@,
                old(data).position() as int,
                old(self).outputs@.len(),
            ),
            blocks@ == changes(final(self).outputs@, final(self).inputs@),
    {
        let mut res: Vec<(BlockPos, WorldBlock)> = Vec::new();
        let mut i: usize = 0;
        let count = self.outputs.len();
        while i < count
            invariant
                old(self).wf(),
                count == old(self).outputs@.len(),
                i <= count,
                self.name == old(self).name,
                self.inputs == old(self).inputs,
                self.output_bits == old(self).output_bits,
                self.input_bits == old(self).input_bits,
                data.data@ == old(data).data@,
                data.position() == old(data).position() + bit_total(old(self).outputs@, i as nat),
                old(data).position() + old(self).output_bits <= usize::MAX,
                self.outputs@ == read_outputs(
                    old(self).outputs@,
                    old(data).data@,
                    old(data).position() as int,
                    i as nat,
                ),
                res@.len() == i,
                forall|k: int|
                    0 <= k < i ==> #[trigger] res@[k] == (
                        self.outputs@[k].pos,
                        self.outputs@[k].spec_block(),
                    ),
            decreases count - i,
        {
            let mut output = self.outputs[i];
            proof {
                lemma_offsets(old(self).outputs@, i as nat);
                lemma_offsets_rise(old(self).outputs@, (i + 1) as nat, count as nat);
                lemma_stream_value_bound(
                    data.data@,
                    data.position() as int,
                    output.ty.spec_bit_count() as nat,
                );
                lemma_weight_8();
            }
            let state = match data.next(output.bit_count()) {
                Some(value) => value,
                None => 0,
            };
            output.set_state(state);
            self.outputs.set(i, output);
            res.push((output.pos, output.get_block()));
            i += 1;
            assert(self.outputs@ =~= read_outputs(
                old(self).outputs@,
                old(data).data@,
                old(data).position() as int,
                i as nat,
            ));
        }
        proof {
            lemma_offsets_ignore_state(old(self).outputs@, self.outputs@, count as nat);
        }
        let mut k: usize = 0;
        while k < self.inputs.len()
            invariant
                k <= self.inputs@.len(),
                res@.len() == self.outputs@.len() + k,
                forall|j: int|
                    0 <= j < res@.len() ==> #[trigger] res@[j] == changes(
                        self.outputs@,
                        self.inputs@,
                    )[j],
            decreases self.inputs.len() - k,
        {
            let input = self.inputs[k];
            res.push((input.pos, input.get_block()));
            k += 1;
        }
        assert(res@ =~= changes(self.outputs@, self.inputs@));
        res
    }
}

/// A table that grew at its end keeps the offsets of its old blocks.
pub proof fn lemma_offsets_prefix(a: Seq<IntfBlock>, b: Seq<IntfBlock>, n: nat)
    requires
        n <= a.len() <= b.len(),
        forall|i: int| 0 <= i < a.len() ==> (#[trigger] a[i]) == b[i],
    ensures
        bit_total(a, n) == bit_total(b, n),
    decreases n,
{
    if n > 0 {
        lemma_offsets_prefix(a, b, (n - 1) as nat);
    }
}


/// Bit `k` of a state.
pub open spec fn state_bit(state: u8, k: int) -> bool {
    0 <= k < 8 && (state >> (k as u8)) & 1 == 1
}

/// Bit `j` of the stream that holds the states of the first `n` blocks of a table, each
/// at its offset with its lowest bit first; bits that belong to no block are 0.
pub open spec fn packed_bit(outputs: Seq<IntfBlock>, n: nat, j: int) -> bool
    decreases n,
{
    if n == 0 || n > outputs.len() {
        false
    } else if bit_total(outputs, (n - 1) as nat) <= j < bit_total(outputs, (n - 1) as nat)
        + outputs[n - 1].ty.spec_bit_count() {
        state_bit(outputs[n - 1].state, j - bit_total(outputs, (n - 1) as nat))
    } else {
        packed_bit(outputs, (n - 1) as nat, j)
    }
}

proof fn lemma_packed_beyond(outputs: Seq<IntfBlock>, n: nat, j: int)
    requires
        n <= outputs.len(),
        j >= bit_total(outputs, n) || j < 0,
    ensures
        !packed_bit(outputs, n, j),
    decreases n,
{
    if n > 0 {
        lemma_offsets(outputs, (n - 1) as nat);
        lemma_packed_beyond(outputs, (n - 1) as nat, j);
    }
}

proof fn lemma_packed_within(outputs: Seq<IntfBlock>, n: nat, i: nat, k: int)
    requires
        i < n <= outputs.len(),
        0 <= k < outputs[i as int].ty.spec_bit_count(),
    ensures
        packed_bit(outputs, n, bit_total(outputs, i) + k) == state_bit(outputs[i as int].state, k),
    decreases n,
{
    if n - 1 > i {
        lemma_offsets(outputs, i);
        lemma_offsets_rise(outputs, i + 1, (n - 1) as nat);
        lemma_packed_within(outputs, (n - 1) as nat, i, k);
    }
}

/// The value of the lowest `n` bits of a state.
pub open spec fn low_bits(state: u8, n: nat) -> nat
    decreases n,
{
    if n == 0 {
        0
    } else {
        low_bits(state, (n - 1) as nat) + if state_bit(state, n - 1) {
            weight((n - 1) as nat)
        } else {
            0
        }
    }
}

proof fn lemma_stream_value_is_low_bits(data: Seq<u8>, index: int, state: u8, n: nat)
    requires
        forall|k: int| 0 <= k < n ==> stream_bit(data, index + k) == state_bit(state, k),
    ensures
        stream_value(data, index, n) == low_bits(state, n),
    decreases n,
{
    if n > 0 {
        lemma_stream_value_is_low_bits(data, index, state, (n - 1) as nat);
    }
}

proof fn lemma_low_bits_of_valid(block: IntfBlock)
    requires
        block.valid(),
    ensures
        low_bits(block.state, block.ty.spec_bit_count() as nat) == block.state,
{
    let s = block.state;
    lemma_weight_8();
    reveal_with_fuel(low_bits, 5);
    if block.ty is HexLamp {
        assert(s == (if (s >> 0u8) & 1 == 1 {
            1u8
        } else {
            0u8
        }) + (if (s >> 1u8) & 1 == 1 {
            2u8
        } else {
            0u8
        }) + (if (s >> 2u8) & 1 == 1 {
            4u8
        } else {
            0u8
        }) + (if (s >> 3u8) & 1 == 1 {
            8u8
        } else {
            0u8
        })) by (bit_vector)
            requires
                s <= 15,
        ;
    } else {
        assert(((s >> 0u8) & 1 == 1) == (s == 1)) by (bit_vector)
            requires
                s <= 1,
        ;
    }
}

proof fn lemma_set_bit(b: u8, p: u8, q: u8)
    requires
        p < 8,
        q < 8,
    ensures
        (((b | (1u8 << p)) >> q) & 1 == 1) == (q == p || (b >> q) & 1 == 1),
{
    assert((((b | (1u8 << p)) >> q) & 1 == 1) == (q == p || (b >> q) & 1 == 1)) by (bit_vector)
        requires
            p < 8,
            q < 8,
    ;
}

/// A stream whose bits are the packed states of a table holds the state of every block.
pub proof fn lemma_packed_serializes(data: Seq<u8>, outputs: Seq<IntfBlock>)
    requires
        forall|i: int| 0 <= i < outputs.len() ==> (#[trigger] outputs[i]).valid(),
        bit_total(outputs, outputs.len()) <= 8 * data.len(),
        forall|j: int|
            0 <= j < 8 * data.len() ==> stream_bit(data, j) == packed_bit(outputs, outputs.len(), j),
    ensures
        serializes(data, 0, outputs),
{
    assert forall|i: int| 0 <= i < outputs.len() implies 0 + bit_total(outputs, i as nat) + (
    #[trigger] outputs[i]).ty.spec_bit_count() <= 8 * data.len() && stream_value(
        data,
        0int + bit_total(outputs, i as nat),
        outputs[i].ty.spec_bit_count() as nat,
    ) == outputs[i].state by {
        let off = bit_total(outputs, i as nat) as int;
        let bits = outputs[i].ty.spec_bit_count() as nat;
        lemma_offsets(outputs, i as nat);
        lemma_offsets_rise(outputs, (i + 1) as nat, outputs.len());
        assert forall|k: int| 0 <= k < bits implies stream_bit(data, off + k) == state_bit(
            outputs[i].state,
            k,
        ) by {
            lemma_packed_within(outputs, outputs.len(), i as nat, k);
        }
        lemma_stream_value_is_low_bits(data, off, outputs[i].state, bits);
        lemma_low_bits_of_valid(outputs[i]);
    }
}

impl Linker {
    /// Packs the states of the outputs into a stream, as the device sends them: each
    /// output at its offset, its lowest bit first, in as many bytes as the output bits
    /// need. Reading the stream back with `get_blocks_to_change` changes no state.
    pub fn serialize_states(&self) -> (stream: Vec<u8>)
        requires
            self.wf(),
            forall|i: int| 0 <= i < self.outputs@.len() ==> (#[trigger] self.outputs@[i]).valid(),
        ensures
            stream@.len() == (self.output_bits + 7) / 8,
            serializes(stream@, 0, self.outputs@),
            read_outputs(self.outputs@, stream@, 0, self.outputs@.len()) == self.outputs@,
    {
        let size = self.get_output_bytes();
        let mut stream: Vec<u8> = vec![0u8; size];
        let count = self.outputs.len();
        let mut offset: usize = 0;
        let mut i: usize = 0;
        proof {
            assert forall|j: int| 0 <= j < 8 * stream@.len() implies stream_bit(stream@, j)
                == packed_bit(self.outputs@, 0, j) by {
                let b = stream@[j / 8];
                let q = (j % 8) as u8;
                assert((0u8 >> q) & 1 != 1) by (bit_vector);
            }
        }
        while i < count
            invariant
                self.wf(),
                count == self.outputs@.len(),
                i <= count,
                stream@.len() == size,
                size == (self.output_bits + 7) / 8,
                offset == bit_total(self.outputs@, i as nat),
                forall|j: int|
                    0 <= j < 8 * stream@.len() ==> stream_bit(stream@, j) == packed_bit(
                        self.outputs@,
                        i as nat,
                        j,
                    ),
            decreases count - i,
        {
            let output = self.outputs[i];
            let bits = output.bit_count();
            proof {
                lemma_offsets(self.outputs@, i as nat);
                lemma_offsets_rise(self.outputs@, (i + 1) as nat, count as nat);
            }
            let mut k: u8 = 0;
            while k < bits
                invariant
                    k <= bits <= 4,
                    i < count,
                    count == self.outputs@.len(),
                    output == self.outputs@[i as int],
                    bits == output.ty.spec_bit_count(),
                    stream@.len() == size,
                    offset == bit_total(self.outputs@, i as nat),
                    offset + bits <= 8 * size,
                    offset + bits <= u32::MAX,
                    forall|j: int|
                        0 <= j < 8 * stream@.len() ==> stream_bit(stream@, j) == (if offset <= j
                            < offset + k {
                            state_bit(output.state, j - offset)
                        } else {
                            packed_bit(self.outputs@, i as nat, j)
                        }),
                decreases bits - k,
            {
                let j: usize = offset + k as usize;
                let ghost before = stream@;
                proof {
                    lemma_packed_beyond(self.outputs@, i as nat, j as int);
                    assert(!stream_bit(before, j as int));
                    assert(state_bit(output.state, k as int) == ((output.state >> k) & 1 == 1));
                }
                if (output.state >> k) & 1 == 1 {
                    let p: u8 = (j % 8) as u8;
                    let old_byte = stream[j / 8];
                    stream.set(j / 8, old_byte | (1u8 << p));
                    proof {
                        assert forall|t: int| 0 <= t < 8 * stream@.len() implies stream_bit(
                            stream@,
                            t,
                        ) == (t == j || stream_bit(before, t)) by {
                            if t / 8 == j / 8 {
                                lemma_set_bit(old_byte, p, (t % 8) as u8);
                            }
                        }
                    }
                }
                proof {
                    assert forall|t: int| 0 <= t < 8 * stream@.len() implies stream_bit(stream@, t)
                        == (if offset <= t < offset + (k + 1) {
                        state_bit(output.state, t - offset)
                    } else {
                        packed_bit(self.outputs@, i as nat, t)
                    }) by {
                        let was = stream_bit(before, t);
                        let packed = packed_bit(self.outputs@, i as nat, t);
                        assert(was == (if offset <= t < offset + k {
                            state_bit(output.state, t - offset)
                        } else {
                            packed
                        }));
                        if t == j {
                            assert(t - offset == k);
                        } else {
                            assert(stream_bit(stream@, t) == was);
                        }
                    }
                }
                k += 1;
            }
            offset = offset + bits as usize;
            i += 1;
        }
        proof {
            lemma_packed_serializes(stream@, self.outputs@);
            lemma_read_serialized(stream@, 0, self.outputs@);
        }
        stream
    }
}


impl Linker {
    /// Adds the blocks of all nodes of a graph, in the order of the node indices: this
    /// order is the order of the bits in the two streams.
    pub fn add_graph(&mut self, graph: &CompileGraph)
        requires
            old(self).wf(),
            graph.wf(),
            old(self).output_bits + 4 * graph.nodes().len() <= u32::MAX,
            old(self).input_bits + 4 * graph.nodes().len() <= u32::MAX,
        ensures
            final(self).wf(),
            final(self).name == old(self).name,
            final(self).inputs@ == linked_inputs(old(self).inputs@, graph.nodes(), graph.nodes().len()),
            final(self).outputs@ == linked_outputs(
                old(self).outputs@,
                graph.nodes(),
                graph.nodes().len(),
            ),
    {
        let count = graph.node_count();
        let mut i: u32 = 0;
        while i < count
            invariant
                self.wf(),
                graph.wf(),
                count == graph.nodes().len(),
                i <= count,
                self.name == old(self).name,
                self.output_bits <= old(self).output_bits + 4 * i,
                self.input_bits <= old(self).input_bits + 4 * i,
                old(self).output_bits + 4 * graph.nodes().len() <= u32::MAX,
                old(self).input_bits + 4 * graph.nodes().len() <= u32::MAX,
                self.inputs@ == linked_inputs(old(self).inputs@, graph.nodes(), i as nat),
                self.outputs@ == linked_outputs(old(self).outputs@, graph.nodes(), i as nat),
            decreases count - i,
        {
            let ghost bits_before = (self.output_bits, self.input_bits);
            let ghost tables = (self.outputs@, self.inputs@);
            match graph.node(i) {
                Some(node) => match node.block {
                    Some((pos, id)) => {
                        self.add_block(WorldBlock::from_block_state(id), pos);
                        proof {
                            if self.outputs@.len() > tables.0.len() {
                                lemma_offsets(self.outputs@, tables.0.len());
                                lemma_offsets_prefix(tables.0, self.outputs@, tables.0.len());
                            }
                            if self.inputs@.len() > tables.1.len() {
                                lemma_offsets(self.inputs@, tables.1.len());
                                lemma_offsets_prefix(tables.1, self.inputs@, tables.1.len());
                            }
                        }
                    },
                    None => {},
                },
                None => {},
            }
            i += 1;
        }
    }
}


/// The number of stream bits that the blocks of a table take.
pub fn count_bits(blocks: &Vec<IntfBlock>) -> (total: u128)
    ensures
        total == bit_total(blocks@, blocks@.len()),
{
    let mut total: u128 = 0;
    let mut i: usize = 0;
    while i < blocks.len()
        invariant
            i <= blocks@.len(),
            total == bit_total(blocks@, i as nat),
            total <= 4 * i,
        decreases blocks.len() - i,
    {
        proof {
            lemma_offsets(blocks@, i as nat);
        }
        total = total + blocks[i].bit_count() as u128;
        i += 1;
    }
    total
}

impl Linker {
    /// Whether the bit counts are the sums over the two tables, as every linker that grew
    /// block by block has them. A linker read from a file need not.
    pub fn is_wf(&self) -> (ok: bool)
        ensures
            ok == self.wf(),
    {
        count_bits(&self.outputs) == self.output_bits as u128 && count_bits(&self.inputs)
            == self.input_bits as u128
    }
}

} // verus!
