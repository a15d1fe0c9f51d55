use redstone_fpga::blocks::{
    Block, BlockDirection, BlockPos, ButtonFace, Lever, LeverFace, RedstoneWire, RedstoneWireSide,
    StoneButton, TrapdoorHalf, WorldBlock,
};
use redstone_fpga::interface::BinaryIterator;
use redstone_fpga::node::{FPGAInputs, FPGAOutputs, Input, InputType, Output, OutputType};

fn hex(power: u8) -> WorldBlock {
    let n = RedstoneWireSide::Unconnected;
    WorldBlock::Plain(Block::RedstoneWire(RedstoneWire::new(n, n, n, n, power)))
}

fn light(lit: bool) -> WorldBlock {
    WorldBlock::Plain(Block::RedstoneLamp(lit))
}

fn switch(powered: bool) -> WorldBlock {
    WorldBlock::Plain(Block::Lever(Lever::new(LeverFace::Floor, BlockDirection::North, powered)))
}

#[test]
fn output_table_reads_the_stream() {
    let mut table = FPGAOutputs::default();
    table.add(light(false), BlockPos::new(0, 0, 0));
    table.add(hex(0), BlockPos::new(1, 0, 0));
    table.add(WorldBlock::IronTrapdoor(BlockDirection::West, TrapdoorHalf::Top, false), BlockPos::new(2, 0, 0));
    assert_eq!(table.bits, 6);
    assert_eq!(table.get_num_bytes(), 1);
    let mut data = BinaryIterator::new(vec![0b0101101]);
    let blocks = table.get_blocks_to_change(&mut data);
    assert_eq!(
        blocks,
        vec![
            (BlockPos::new(0, 0, 0), light(true)),
            (BlockPos::new(1, 0, 0), hex(0b0110)),
            (BlockPos::new(2, 0, 0), WorldBlock::IronTrapdoor(BlockDirection::West, TrapdoorHalf::Top, true)),
        ]
    );
    assert_eq!(data.index(), 6);
    assert_eq!(table.outputs[1].state, 6);
    let mut empty = BinaryIterator::new(Vec::new());
    let blocks = table.get_blocks_to_change(&mut empty);
    assert_eq!(blocks[1], (BlockPos::new(1, 0, 0), hex(0)));
}

#[test]
fn output_bytes_round_up() {
    let mut table = FPGAOutputs::default();
    assert_eq!(table.get_num_bytes(), 0);
    for i in 0..8 {
        table.add(light(false), BlockPos::new(i, 0, 0));
    }
    assert_eq!(table.get_num_bytes(), 1);
    table.add(light(false), BlockPos::new(8, 0, 0));
    assert_eq!(table.bits, 9);
    assert_eq!(table.get_num_bytes(), 2);
}

#[test]
fn output_kinds() {
    let pos = BlockPos::new(0, 0, 0);
    assert_eq!(Output::new(light(true), pos), Some(Output { ty: OutputType::Lamp, pos, state: 1 }));
    assert_eq!(Output::new(hex(9), pos), Some(Output { ty: OutputType::HexLamp, pos, state: 9 }));
    assert_eq!(Output::new(switch(true), pos), None);
    assert_eq!(Output::new(WorldBlock::Plain(Block::Air), pos), None);
    let mut out = Output::new(hex(0), pos).unwrap();
    assert_eq!(out.bit_count(), 4);
    out.set_state(0xFF);
    assert_eq!(out.state, 0x0F);
    assert_eq!(out.get_block(), hex(15));
    let mut lamp = Output::new(light(false), pos).unwrap();
    assert_eq!(lamp.bit_count(), 1);
    lamp.set_state(3);
    assert_eq!(lamp.get_block(), light(true));
}

#[test]
fn input_table_shows_what_changed() {
    let mut table = FPGAInputs::default();
    table.add(switch(false), BlockPos::new(0, 0, 0));
    table.add(WorldBlock::StonePressurePlate(true), BlockPos::new(1, 0, 0));
    table.add(
        WorldBlock::StoneButton(StoneButton::new(ButtonFace::Wall, BlockDirection::East, false)),
        BlockPos::new(2, 0, 0),
    );
    assert_eq!(table.num_inputs, 3);
    assert_eq!(table.inputs[2].1.id, 2);
    let shown = table.get_blocks_to_change();
    assert_eq!(shown.len(), 3);
    assert_eq!(shown[0], (BlockPos::new(0, 0, 0), switch(false)));
    assert_eq!(shown[1], (BlockPos::new(1, 0, 0), WorldBlock::StonePressurePlate(true)));
    assert!(table.get_blocks_to_change().is_empty());
    {
        let input = table.get_mut(BlockPos::new(0, 0, 0)).unwrap();
        let state = input.state;
        input.set_state(!state);
        assert_eq!(input.id, 0);
    }
    assert!(table.get_mut(BlockPos::new(9, 9, 9)).is_none());
    assert_eq!(table.get_blocks_to_change(), vec![(BlockPos::new(0, 0, 0), switch(true))]);
    assert!(!table.inputs[0].1.has_changed());
}

#[test]
fn input_at_a_taken_position_gives_way() {
    let mut table = FPGAInputs::default();
    table.add(switch(false), BlockPos::new(0, 0, 0));
    table.add(switch(false), BlockPos::new(1, 0, 0));
    table.add(WorldBlock::StonePressurePlate(false), BlockPos::new(0, 0, 0));
    assert_eq!(table.inputs.len(), 2);
    assert_eq!(table.num_inputs, 3);
    assert_eq!(table.inputs[0].1.ty, InputType::PressurePlate);
    assert_eq!(table.inputs[0].1.id, 2);
    assert_eq!(Input::new(light(true), 0), None);
    let mut plate = Input::new(WorldBlock::StonePressurePlate(false), 7).unwrap();
    assert!(plate.has_changed());
    plate.set_state(0xFF);
    assert_eq!(plate.state, 1);
    assert_eq!(plate.get_block(), WorldBlock::StonePressurePlate(true));
}
