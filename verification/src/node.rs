//! Separate tables for the outputs and the inputs of a circuit: outputs in the order of
//! their bits, inputs by their position.

use vstd::prelude::*;
use crate::blocks::{
    Block, BlockDirection, BlockPos, ButtonFace, Lever, LeverFace, RedstoneWire, RedstoneWireSide,
    StoneButton, TrapdoorHalf, WorldBlock,
};
use crate::interface::{lemma_stream_value_bound, lemma_weight_8, stream_value, BinaryIterator};

verus! {

/// The kind of an output, with what is needed to build the block again.
#[derive(Clone, Copy, Debug, PartialEq, Eq, Structural)]
pub enum OutputType {
    Lamp,
    Trapdoor { facing: BlockDirection, half: TrapdoorHalf },
    HexLamp,
}

/// One output: its kind, where it stands, and its state.
#[derive(Clone, Copy, Debug, PartialEq, Eq, Structural)]
pub struct Output {
    pub ty: OutputType,
    pub pos: BlockPos,
    pub state: u8,
}

fn flag(set: bool) -> (state: u8)
    ensures
        state == if set {
            1u8
        } else {
            0u8
        },
{
    if set {
        1
    } else {
        0
    }
}

impl OutputType {
    /// The number of stream bits of the kind: 4 for a hex lamp, else 1.
    pub open spec fn spec_bit_count(self) -> u8 {
        match self {
            OutputType::HexLamp => 4,
            _ => 1,
        }
    }

    /// A state cut down to the bits of the kind.
    pub open spec fn masked(self, state: u8) -> u8 {
        match self {
            OutputType::HexLamp => state & 0x0F,
            _ => state & 0x01,
        }
    }
}

impl Output {
    /// The output that a world block makes: a lamp, an iron trapdoor, or dust without
    /// connections. No other block is an output.
    pub open spec fn spec_new(block: WorldBlock, pos: BlockPos) -> Option<Output> {
        match block {
            WorldBlock::Plain(Block::RedstoneLamp(lit)) => Some(
                Output { ty: OutputType::Lamp, pos, state: if lit {
                    1u8
                } else {
                    0u8
                } },
            ),
            WorldBlock::IronTrapdoor(facing, half, powered) => Some(
                Output { ty: OutputType::Trapdoor { facing, half }, pos, state: if powered {
                    1u8
                } else {
                    0u8
                } },
            ),
            WorldBlock::Plain(Block::RedstoneWire(wire)) => if wire.is_dot() {
                Some(Output { ty: OutputType::HexLamp, pos, state: wire.power })
            } else {
                None
            },
            _ => None,
        }
    }

    pub fn new(block: WorldBlock, pos: BlockPos) -> (output: Option<Output>)
        ensures
            output == Self::spec_new(block, pos),
    {
        match block {
            WorldBlock::Plain(Block::RedstoneLamp(lit)) => Some(
                Output { ty: OutputType::Lamp, pos, state: flag(lit) },
            ),
            WorldBlock::IronTrapdoor(facing, half, powered) => Some(
                Output { ty: OutputType::Trapdoor { facing, half }, pos, state: flag(powered) },
            ),
            WorldBlock::Plain(Block::RedstoneWire(wire)) => {
                let dot = match (wire.north, wire.south, wire.east, wire.west) {
                    (
                        RedstoneWireSide::Unconnected,
                        RedstoneWireSide::Unconnected,
                        RedstoneWireSide::Unconnected,
                        RedstoneWireSide::Unconnected,
                    ) => true,
                    _ => false,
                };
                if dot {
                    Some(Output { ty: OutputType::HexLamp, pos, state: wire.power })
                } else {
                    None
                }
            },
            _ => None,
        }
    }

    pub fn bit_count(&self) -> (bits: u8)
        ensures
            bits == self.ty.spec_bit_count(),
            bits == 1 || bits == 4,
    {
        match self.ty {
            OutputType::HexLamp => 4,
            _ => 1,
        }
    }

    /// Sets the state, cut down to the bits of the kind.
    pub fn set_state(&mut self, state: u8)
        ensures
            *final(self) == (Output { state: old(self).ty.masked(state), ..*old(self) }),
    {
        self.state = match self.ty {
            OutputType::HexLamp => state & 0x0F,
            _ => state & 0x01,
        };
    }

    /// The world block in the state that the output holds.
    pub open spec fn spec_block(self) -> WorldBlock {
        match self.ty {
            OutputType::Lamp => WorldBlock::Plain(Block::RedstoneLamp(self.state == 1)),
            OutputType::Trapdoor { facing, half } => WorldBlock::IronTrapdoor(
                facing,
                half,
                self.state == 1,
            ),
            OutputType::HexLamp => WorldBlock::Plain(
                Block::RedstoneWire(
                    RedstoneWire {
                        north: RedstoneWireSide::Unconnected,
                        south: RedstoneWireSide::Unconnected,
                        east: RedstoneWireSide::Unconnected,
                        west: RedstoneWireSide::Unconnected,
                        power: self.state,
                    },
                ),
            ),
        }
    }

    pub fn get_block(&self) -> (block: WorldBlock)
        ensures
            block == self.spec_block(),
    {
        match self.ty {
            OutputType::Lamp => WorldBlock::Plain(Block::RedstoneLamp(self.state == 1)),
            OutputType::Trapdoor { facing, half } => WorldBlock::IronTrapdoor(
                facing,
                half,
                self.state == 1,
            ),
            OutputType::HexLamp => {
                let n = RedstoneWireSide::Unconnected;
                WorldBlock::Plain(Block::RedstoneWire(RedstoneWire::new(n, n, n, n, self.state)))
            },
        }
    }
}

/// The number of stream bits that the first `n` outputs take: the offset of output `n`.
pub open spec fn output_offset(outputs: Seq<Output>, n: nat) -> nat
    decreases n,
{
    if n == 0 || n > outputs.len() {
        0
    } else {
        output_offset(outputs, (n - 1) as nat) + outputs[n - 1].ty.spec_bit_count() as nat
    }
}

proof fn lemma_output_offsets(outputs: Seq<Output>, i: nat, n: nat)
    requires
        i <= n <= outputs.len(),
    ensures
        output_offset(outputs, i) <= output_offset(outputs, n),
    decreases n - i,
{
    if i < n {
        lemma_output_offsets(outputs, i, (n - 1) as nat);
    }
}

proof fn lemma_output_offset_prefix(a: Seq<Output>, b: Seq<Output>, n: nat)
    requires
        n <= a.len() <= b.len(),
        forall|i: int| 0 <= i < a.len() ==> (#[trigger] a[i]).ty == b[i].ty,
    ensures
        output_offset(a, n) == output_offset(b, n),
    decreases n,
{
    if n > 0 {
        lemma_output_offset_prefix(a, b, (n - 1) as nat);
    }
}

/// An output with the state that the stream holds for it at bit `index`, or 0 where the
/// stream ends before its bits.
pub open spec fn read_output(output: Output, data: Seq<u8>, index: int) -> Output {
    let bits = output.ty.spec_bit_count();
    let raw = if index + bits <= 8 * data.len() {
        stream_value(data, index, bits as nat) as u8
    } else {
        0u8
    };
    Output { state: output.ty.masked(raw), ..output }
}

/// A table whose first `n` outputs took their states from a stream that starts at bit
/// `start`, each at its offset.
pub open spec fn read_table(outputs: Seq<Output>, data: Seq<u8>, start: int, n: nat) -> Seq<Output> {
    Seq::new(
        outputs.len(),
        |i: int|
            if i < n {
                read_output(outputs[i], data, start + output_offset(outputs, i as nat))
            } else {
                outputs[i]
            },
    )
}

/// The outputs of a circuit in the order of their bits.
#[derive(Debug)]
pub struct FPGAOutputs {
    pub outputs: Vec<Output>,
    pub bits: usize,
}

impl Default for FPGAOutputs {
    fn default() -> (table: FPGAOutputs)
        ensures
            table.wf(),
            table.outputs@.len() == 0,
    {
        FPGAOutputs { outputs: Vec::new(), bits: 0 }
    }
}

impl FPGAOutputs {
    /// The bit count is the sum over the table.
    pub open spec fn wf(&self) -> bool {
        self.bits == output_offset(self.outputs@, self.outputs@.len())
    }

    /// Adds an output at the end of the table. The block has to be an output.
    pub fn add(&mut self, block: WorldBlock, pos: BlockPos)
        requires
            old(self).wf(),
            Output::spec_new(block, pos) is Some,
            old(self).bits <= usize::MAX - 4,
        ensures
            final(self).wf(),
            final(self).outputs@ == old(self).outputs@.push(Output::spec_new(block, pos)->0),
    {
        match Output::new(block, pos) {
            Some(out) => {
                self.bits = self.bits + out.bit_count() as usize;
                self.outputs.push(out);
                proof {
                    lemma_output_offset_prefix(
                        old(self).outputs@,
                        self.outputs@,
                        old(self).outputs@.len(),
                    );
                }
            },
            None => {},
        }
    }

    /// The number of bytes that hold the bits.
    pub fn get_num_bytes(&self) -> (bytes: usize)
        ensures
            bytes == (self.bits + 7) / 8,
    {
        if self.bits % 8 == 0 {
            self.bits / 8
        } else {
            self.bits / 8 + 1
        }
    }

    /// Takes the state of each output from the stream, in the order of the table, and
    /// returns the block of each at its position.
    pub fn get_blocks_to_change(&mut self, data: &mut BinaryIterator) -> (blocks: Vec<(BlockPos, WorldBlock)>)
        requires
            old(self).wf(),
            old(data).position() + old(self).bits <= usize::MAX,
        ensures
            final(self).wf(),
            final(self).bits == old(self).bits,
            final(data).data@ == old(data).data@,
            final(data).position() == old(data).position() + old(self).bits,
            final(self).outputs@ == read_table(
                old(self).outputs@,
                old(data).data@,
                old(data).position() as int,
                old(self).outputs@.len(),
            ),
            blocks@.len() == final(self).outputs@.len(),
            forall|k: int|
                0 <= k < blocks@.len() ==> #[trigger] blocks@[k] == (
                    final(self).outputs@[k].pos,
                    final(self).outputs@[k].spec_block(),
                ),
    {
        let mut res: Vec<(BlockPos, WorldBlock)> = Vec::new();
        let count = self.outputs.len();
        let mut i: usize = 0;
        while i < count
            invariant
                old(self).wf(),
                count == old(self).outputs@.len(),
                i <= count,
                self.bits == old(self).bits,
                data.data@ == old(data).data@,
                data.position() == old(data).position() + output_offset(old(self).outputs@, i as nat),
                old(data).position() + old(self).bits <= usize::MAX,
                self.outputs@ == read_table(
                    old(self).outputs@,
                    old(data).data@,
                    old(data).position() as int,
                    i as nat,
                ),
                res@.len() == i,
                forall|k: int|
                    0 <= k < i ==> #[trigger] res@[k] == (
                        self.outputs@[k].pos,
                        self.outputs@[k].spec_block(),
                    ),
            decreases count - i,
        {
            let mut output = self.outputs[i];
            proof {
                lemma_output_offsets(old(self).outputs@, (i + 1) as nat, count as nat);
                lemma_stream_value_bound(
                    data.data@,
                    data.position() as int,
                    output.ty.spec_bit_count() as nat,
                );
                lemma_weight_8();
            }
            let state = match data.next(output.bit_count()) {
                Some(value) => value,
                None => 0,
            };
            output.set_state(state);
            self.outputs.set(i, output);
            res.push((output.pos, output.get_block()));
            i += 1;
            assert(self.outputs@ =~= read_table(
                old(self).outputs@,
                old(data).data@,
                old(data).position() as int,
                i as nat,
            ));
        }
        proof {
            lemma_output_offset_prefix(old(self).outputs@, self.outputs@, count as nat);
        }
        res
    }
}

/// The kind of an input, with what is needed to build the block again.
#[derive(Clone, Copy, Debug, PartialEq, Eq, Structural)]
#[allow(inconsistent_fields)]
pub enum InputType {
    Lever { face: LeverFace, facing: BlockDirection },
    Button { face: ButtonFace, facing: BlockDirection },
    PressurePlate,
}

/// One input: its kind, its state, whether the state changed since it was last shown,
/// and its bit in the input vector.
#[derive(Clone, Copy, Debug, PartialEq, Eq, Structural)]
pub struct Input {
    pub ty: InputType,
    pub state: u8,
    pub changed: bool,
    pub id: u16,
}

impl Input {
    /// The input that a world block makes: a lever, a stone button or a stone pressure
    /// plate. A new input counts as changed.
    pub open spec fn spec_new(block: WorldBlock, id: u16) -> Option<Input> {
        match block {
            WorldBlock::Plain(Block::Lever(lever)) => Some(
                Input {
                    ty: InputType::Lever { face: lever.face, facing: lever.facing },
                    state: if lever.powered {
                        1u8
                    } else {
                        0u8
                    },
                    changed: true,
                    id,
                },
            ),
            WorldBlock::StoneButton(button) => Some(
                Input {
                    ty: InputType::Button { face: button.face, facing: button.facing },
                    state: if button.powered {
                        1u8
                    } else {
                        0u8
                    },
                    changed: true,
                    id,
                },
            ),
            WorldBlock::StonePressurePlate(powered) => Some(
                Input { ty: InputType::PressurePlate, state: if powered {
                    1u8
                } else {
                    0u8
                }, changed: true, id },
            ),
            _ => None,
        }
    }

    pub fn new(block: WorldBlock, id: u16) -> (input: Option<Input>)
        ensures
            input == Self::spec_new(block, id),
    {
        match block {
            WorldBlock::Plain(Block::Lever(lever)) => Some(
                Input {
                    ty: InputType::Lever { face: lever.face, facing: lever.facing },
                    state: flag(lever.powered),
                    changed: true,
                    id,
                },
            ),
            WorldBlock::StoneButton(button) => Some(
                Input {
                    ty: InputType::Button { face: button.face, facing: button.facing },
                    state: flag(button.powered),
                    changed: true,
                    id,
                },
            ),
            WorldBlock::StonePressurePlate(powered) => Some(
                Input { ty: InputType::PressurePlate, state: flag(powered), changed: true, id },
            ),
            _ => None,
        }
    }

    /// Sets the state to the lowest bit of `state` and marks the input as changed.
    pub fn set_state(&mut self, state: u8)
        ensures
            *final(self) == (Input { state: state & 0x01, changed: true, ..*old(self) }),
    {
        self.state = state & 0x01;
        self.changed = true;
    }

    pub fn has_changed(&self) -> (changed: bool)
        ensures
            changed == self.changed,
    {
        self.changed
    }

    /// The world block in the state that the input holds.
    pub open spec fn spec_block(self) -> WorldBlock {
        match self.ty {
            InputType::Lever { face, facing } => WorldBlock::Plain(
                Block::Lever(Lever { face, facing, powered: self.state == 1 }),
            ),
            InputType::Button { face, facing } => WorldBlock::StoneButton(
                StoneButton { face, facing, powered: self.state == 1 },
            ),
            InputType::PressurePlate => WorldBlock::StonePressurePlate(self.state == 1),
        }
    }

    pub fn get_block(&self) -> (block: WorldBlock)
        ensures
            block == self.spec_block(),
    {
        match self.ty {
            InputType::Lever { face, facing } => WorldBlock::Plain(
                Block::Lever(Lever::new(face, facing, self.state == 1)),
            ),
            InputType::Button { face, facing } => WorldBlock::StoneButton(
                StoneButton::new(face, facing, self.state == 1),
            ),
            InputType::PressurePlate => WorldBlock::StonePressurePlate(self.state == 1),
        }
    }
}

/// The first entry of a table, from `from` on, that stands at `pos`.
pub open spec fn entry_at(entries: Seq<(BlockPos, Input)>, pos: BlockPos, from: nat) -> Option<nat>
    decreases entries.len() - from,
{
    if from >= entries.len() {
        None
    } else if entries[from as int].0 == pos {
        Some(from)
    } else {
        entry_at(entries, pos, from + 1)
    }
}

pub proof fn lemma_entry_at(entries: Seq<(BlockPos, Input)>, pos: BlockPos, from: nat)
    ensures
        match entry_at(entries, pos, from) {
            Some(i) => from <= i < entries.len() && entries[i as int].0 == pos && forall|k: int|
                from <= k < i ==> entries[k].0 != pos,
            None => forall|k: int| from <= k < entries.len() ==> entries[k].0 != pos,
        },
    decreases entries.len() - from,
{
    if from < entries.len() && entries[from as int].0 != pos {
        lemma_entry_at(entries, pos, from + 1);
    }
}

/// Whether no two entries of a table stand at the same position.
pub open spec fn distinct_positions(entries: Seq<(BlockPos, Input)>) -> bool {
    forall|i: int, j: int|
        0 <= i < j < entries.len() ==> (#[trigger] entries[i]).0 != (#[trigger] entries[j]).0
}

/// A table after an input was put at `pos`: in place of the input that stood there, or
/// at the end.
pub open spec fn with_entry(entries: Seq<(BlockPos, Input)>, pos: BlockPos, input: Input) -> Seq<
    (BlockPos, Input),
> {
    match entry_at(entries, pos, 0) {
        Some(i) => entries.update(i as int, (pos, input)),
        None => entries.push((pos, input)),
    }
}

/// The blocks of the first `n` entries that changed, each at its position, in the order
/// of the table.
pub open spec fn changed_blocks(entries: Seq<(BlockPos, Input)>, n: nat) -> Seq<(BlockPos, WorldBlock)>
    decreases n,
{
    if n == 0 || n > entries.len() {
        Seq::empty()
    } else {
        let before = changed_blocks(entries, (n - 1) as nat);
        if entries[n - 1].1.changed {
            before.push((entries[n - 1].0, entries[n - 1].1.spec_block()))
        } else {
            before
        }
    }
}

/// The inputs of a circuit by their position. No two stand at the same position.
#[derive(Debug)]
pub struct FPGAInputs {
    pub inputs: Vec<(BlockPos, Input)>,
    pub num_inputs: u16,
}

impl Default for FPGAInputs {
    fn default() -> (table: FPGAInputs)
        ensures
            table.inputs@.len() == 0,
            table.num_inputs == 0,
            distinct_positions(table.inputs@),
    {
        FPGAInputs { inputs: Vec::new(), num_inputs: 0 }
    }
}

impl FPGAInputs {
    fn find(&self, pos: BlockPos) -> (found: Option<usize>)
        ensures
            entry_at(self.inputs@, pos, 0) == match found {
                Some(i) => Some(i as nat),
                None => None,
            },
            found matches Some(i) ==> i < self.inputs@.len() && self.inputs@[i as int].0 == pos,
    {
        let mut i: usize = 0;
        while i < self.inputs.len()
            invariant
                i <= self.inputs@.len(),
                entry_at(self.inputs@, pos, 0) == entry_at(self.inputs@, pos, i as nat),
            decreases self.inputs.len() - i,
        {
            if self.inputs[i].0 == pos {
                return Some(i);
            }
            i += 1;
        }
        None
    }

    /// Puts an input at `pos` with the next bit of the input vector; an input that stood
    /// there gives way to it. The block has to be an input.
    pub fn add(&mut self, block: WorldBlock, pos: BlockPos)
        requires
            Input::spec_new(block, old(self).num_inputs) is Some,
            old(self).num_inputs < u16::MAX,
            distinct_positions(old(self).inputs@),
        ensures
            final(self).inputs@ == with_entry(
                old(self).inputs@,
                pos,
                Input::spec_new(block, old(self).num_inputs)->0,
            ),
            final(self).num_inputs == old(self).num_inputs + 1,
            distinct_positions(final(self).inputs@),
    {
        proof {
            lemma_entry_at(self.inputs@, pos, 0);
        }
        match Input::new(block, self.num_inputs) {
            Some(input) => {
                match self.find(pos) {
                    Some(i) => {
                        self.inputs.set(i, (pos, input));
                    },
                    None => {
                        self.inputs.push((pos, input));
                    },
                }
                self.num_inputs = self.num_inputs + 1;
            },
            None => {},
        }
    }

    /// The blocks of the inputs that changed since they were last shown, each at its
    /// position, in the order of the table. Afterwards none counts as changed.
    pub fn get_blocks_to_change(&mut self) -> (blocks: Vec<(BlockPos, WorldBlock)>)
        ensures
            blocks@ == changed_blocks(old(self).inputs@, old(self).inputs@.len()),
            final(self).num_inputs == old(self).num_inputs,
            final(self).inputs@.len() == old(self).inputs@.len(),
            forall|k: int|
                0 <= k < old(self).inputs@.len() ==> #[trigger] final(self).inputs@[k] == (
                    old(self).inputs@[k].0,
                    (Input { changed: false, ..old(self).inputs@[k].1 }),
                ),
    {
        let mut res: Vec<(BlockPos, WorldBlock)> = Vec::new();
        let count = self.inputs.len();
        let mut i: usize = 0;
        while i < count
            invariant
                count == old(self).inputs@.len(),
                self.inputs@.len() == count,
                i <= count,
                self.num_inputs == old(self).num_inputs,
                res@ == changed_blocks(old(self).inputs@, i as nat),
                forall|k: int|
                    0 <= k < i ==> #[trigger] self.inputs@[k] == (
                        old(self).inputs@[k].0,
                        (Input { changed: false, ..old(self).inputs@[k].1 }),
                    ),
                forall|k: int| i <= k < count ==> #[trigger] self.inputs@[k] == old(self).inputs@[k],
            decreases count - i,
        {
            let (pos, input) = self.inputs[i];
            if input.has_changed() {
                res.push((pos, input.get_block()));
                let mut shown = input;
                shown.changed = false;
                self.inputs.set(i, (pos, shown));
            }
            i += 1;
        }
        res
    }

    /// The input at `pos`, for writing; none where no input stands there.
    pub fn get_mut(&mut self, pos: BlockPos) -> (input: Option<&mut Input>)
        ensures
            match input {
                Some(held) => entry_at(old(self).inputs@, pos, 0) matches Some(i) && *held == old(
                    self,
                ).inputs@[i as int].1 && final(self).inputs@ == old(self).inputs@.update(
                    i as int,
                    (pos, *final(held)),
                ) && final(self).num_inputs == old(self).num_inputs,
                None => entry_at(old(self).inputs@, pos, 0) is None && *final(self) == *old(self),
            },
    {
        match self.find(pos) {
            Some(i) => {
                let entry = &mut self.inputs[i];
                Some(&mut entry.1)
            },
            None => None,
        }
    }
}

} // verus!
