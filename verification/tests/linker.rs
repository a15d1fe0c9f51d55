use redstone_fpga::blocks::{
    Block, BlockDirection, BlockPos, ButtonFace, Lever, LeverFace, RedstoneWire, RedstoneWireSide,
    StoneButton, TrapdoorHalf, WorldBlock,
};
use redstone_fpga::graph::{CompileGraph, CompileNode, NodeState, NodeType};
use redstone_fpga::interface::BinaryIterator;
use redstone_fpga::linker::{IntfBlock, IntfType, Linker};

fn dot(power: u8) -> WorldBlock {
    let n = RedstoneWireSide::Unconnected;
    WorldBlock::Plain(Block::RedstoneWire(RedstoneWire::new(n, n, n, n, power)))
}

fn lamp(lit: bool) -> WorldBlock {
    WorldBlock::Plain(Block::RedstoneLamp(lit))
}


fn lever(powered: bool) -> WorldBlock {
    WorldBlock::Plain(Block::Lever(Lever::new(LeverFace::Floor, BlockDirection::North, powered)))
}

fn sample() -> Linker {
    let mut link = Linker::new("adder".to_string());
    link.add_block(lamp(false), BlockPos::new(0, 1, 0));
    link.add_block(lamp(false), BlockPos::new(1, 1, 0));
    link.add_block(lamp(true), BlockPos::new(2, 1, 0));
    link.add_block(dot(0), BlockPos::new(3, 1, 0));
    link.add_block(lever(false), BlockPos::new(0, 1, 5));
    link.add_block(lever(true), BlockPos::new(1, 1, 5));
    link
}

#[test]
fn linker_counts_bits_and_bytes() {
    let link = sample();
    assert_eq!(link.outputs.len(), 4);
    assert_eq!(link.inputs.len(), 2);
    assert_eq!(link.output_bits, 3 * 1 + 1 * 4);
    assert_eq!(link.get_output_bytes(), 1);
    assert_eq!(link.input_bits, 2);
    assert_eq!(link.get_input_bytes(), 1);
}

#[test]
fn input_bytes_follow_the_input_bits() {
    let mut link = Linker::new("wide".to_string());
    for i in 0..9 {
        link.add_block(lever(false), BlockPos::new(i, 0, 0));
    }
    link.add_block(lamp(false), BlockPos::new(0, 0, 1));
    assert_eq!(link.input_bits, 9);
    assert_eq!(link.get_input_bytes(), 2);
    assert_eq!(link.get_output_bytes(), 1);
    let empty = Linker::new("none".to_string());
    assert_eq!(empty.get_input_bytes(), 0);
    assert_eq!(empty.get_output_bytes(), 0);
}

#[test]
fn blocks_to_change_reads_the_pattern() {
    let mut link = sample();
    let mut data = BinaryIterator::new(vec![0b1010011]);
    let blocks = link.get_blocks_to_change(&mut data);
    assert_eq!(
        blocks,
        vec![
            (BlockPos::new(0, 1, 0), lamp(true)),
            (BlockPos::new(1, 1, 0), lamp(true)),
            (BlockPos::new(2, 1, 0), lamp(false)),
            (BlockPos::new(3, 1, 0), dot(0b1010)),
            (BlockPos::new(0, 1, 5), lever(false)),
            (BlockPos::new(1, 1, 5), lever(true)),
        ]
    );
    assert_eq!(data.index(), 7);
    assert_eq!(link.outputs[3].state, 10);
    assert_eq!(link.output_bits, 7);
}

#[test]
fn blocks_to_change_beyond_the_stream_reads_zero() {
    let mut link = sample();
    let mut data = BinaryIterator::new(Vec::new());
    let blocks = link.get_blocks_to_change(&mut data);
    assert_eq!(blocks[2], (BlockPos::new(2, 1, 0), lamp(false)));
    assert_eq!(blocks[3], (BlockPos::new(3, 1, 0), dot(0)));
    assert_eq!(data.index(), 7);
}

#[test]
fn hex_lamp_bits() {
    let mut link = Linker::new("hex".to_string());
    link.add_block(dot(0), BlockPos::new(0, 0, 0));
    let mut data = BinaryIterator::new(vec![0x0F]);
    assert_eq!(link.get_blocks_to_change(&mut data), vec![(BlockPos::new(0, 0, 0), dot(0xF))]);
    assert_eq!(link.outputs[0].state, 0b1111);
    let mut data = BinaryIterator::new(vec![0xF0]);
    assert_eq!(link.get_blocks_to_change(&mut data), vec![(BlockPos::new(0, 0, 0), dot(0x0))]);
    assert_eq!(link.outputs[0].state, 0);
    let mut hex = IntfBlock::new(dot(3), BlockPos::new(0, 0, 0)).unwrap();
    assert_eq!(hex.bit_count(), 4);
    hex.set_state(0xFF);
    assert_eq!(hex.state, 0x0F);
    assert_eq!(hex.get_block(), dot(15));
}

#[test]
fn reading_the_own_states_changes_nothing() {
    let mut link = sample();
    // lamps 0, 0, 1 and the hex lamp 0, in stream order
    let mut data = BinaryIterator::new(vec![0b0000100]);
    link.get_blocks_to_change(&mut data);
    let states: Vec<u8> = link.outputs.iter().map(|o| o.state).collect();
    assert_eq!(states, vec![0, 0, 1, 0]);
}

#[test]
fn offsets_add_up() {
    let mut link = Linker::new("mixed".to_string());
    link.add_block(lever(false), BlockPos::new(0, 0, 0));
    link.add_block(WorldBlock::StonePressurePlate(false), BlockPos::new(1, 0, 0));
    link.add_block(
        WorldBlock::StoneButton(StoneButton::new(ButtonFace::Wall, BlockDirection::East, false)),
        BlockPos::new(2, 0, 0),
    );
    assert_eq!(link.toggle_input(BlockPos::new(0, 0, 0)), (0, 0, 1));
    assert_eq!(link.toggle_input(BlockPos::new(1, 0, 0)), (1, 0, 1));
    assert_eq!(link.toggle_input(BlockPos::new(2, 0, 0)), (2, 0, 1));
    let mut offset = 0;
    for i in 0..link.inputs.len() {
        let pos = link.inputs[i].pos;
        assert_eq!(link.toggle_input(pos).0, offset);
        offset += link.inputs[i].bit_count() as u32;
    }
    assert_eq!(offset, link.input_bits);
}

#[test]
fn toggle_twice_restores() {
    let mut link = sample();
    let before: Vec<IntfBlock> = link.inputs.clone();
    assert_eq!(link.toggle_input(BlockPos::new(1, 1, 5)), (1, 0, 0));
    assert_eq!(link.inputs[1].state, 0);
    assert_eq!(link.toggle_input(BlockPos::new(1, 1, 5)), (1, 0, 1));
    assert_eq!(link.inputs, before);
}

#[test]
fn toggle_of_an_unknown_position() {
    let mut link = sample();
    let before: Vec<IntfBlock> = link.inputs.clone();
    assert_eq!(link.toggle_input(BlockPos::new(9, 9, 9)), (0, 0, 0));
    assert_eq!(link.inputs, before);
    // outputs are no inputs
    assert_eq!(link.toggle_input(BlockPos::new(0, 1, 0)), (0, 0, 0));
}

#[test]
fn interface_kinds() {
    let pos = BlockPos::new(1, 2, 3);
    assert_eq!(IntfBlock::new(lamp(true), pos), Some(IntfBlock { ty: IntfType::Lamp, pos, state: 1 }));
    assert_eq!(
        IntfBlock::new(WorldBlock::IronTrapdoor(BlockDirection::South, TrapdoorHalf::Bottom, false), pos),
        Some(IntfBlock { ty: IntfType::Trapdoor { facing: BlockDirection::South, half: TrapdoorHalf::Bottom }, pos, state: 0 })
    );
    assert_eq!(IntfBlock::new(dot(7), pos), Some(IntfBlock { ty: IntfType::HexLamp, pos, state: 7 }));
    assert_eq!(
        IntfBlock::new(WorldBlock::StoneButton(StoneButton::new(ButtonFace::Ceiling, BlockDirection::West, true)), pos),
        Some(IntfBlock { ty: IntfType::Button { face: ButtonFace::Ceiling, facing: BlockDirection::West }, pos, state: 1 })
    );
    assert_eq!(IntfBlock::new(WorldBlock::StonePressurePlate(true), pos), Some(IntfBlock { ty: IntfType::PressurePlate, pos, state: 1 }));
    assert_eq!(IntfBlock::new(lever(true), pos).unwrap().get_block(), lever(true));
    let connected = Block::RedstoneWire(RedstoneWire::new(
        RedstoneWireSide::Side,
        RedstoneWireSide::Unconnected,
        RedstoneWireSide::Unconnected,
        RedstoneWireSide::Unconnected,
        3,
    ));
    assert_eq!(IntfBlock::new(WorldBlock::Plain(connected), pos), None);
    assert_eq!(IntfBlock::new(WorldBlock::Plain(Block::Air), pos), None);
    assert_eq!(IntfBlock::new(WorldBlock::Plain(Block::Solid(1)), pos), None);
    assert!(!IntfBlock::is_input(lamp(false)));
    assert!(!IntfBlock::is_input(dot(0)));
    assert!(IntfBlock::is_input(lever(false)));
    assert!(IntfBlock::is_input(WorldBlock::StonePressurePlate(false)));
}

#[test]
fn other_blocks_are_not_linked() {
    let mut link = Linker::new("plain".to_string());
    link.add_block(WorldBlock::Plain(Block::Solid(245)), BlockPos::new(0, 0, 0));
    link.add_block(WorldBlock::Plain(Block::RedstoneTorch(true)), BlockPos::new(0, 1, 0));
    assert!(link.inputs.is_empty());
    assert!(link.outputs.is_empty());
    assert_eq!(link.output_bits + link.input_bits, 0);
}

#[test]
fn one_bit_states_are_cut_to_one_bit() {
    let mut light = IntfBlock::new(lamp(false), BlockPos::new(0, 0, 0)).unwrap();
    assert_eq!(light.bit_count(), 1);
    light.set_state(0xFF);
    assert_eq!(light.state, 1);
    light.set_state(0xFE);
    assert_eq!(light.state, 0);
    assert_eq!(light.get_block(), lamp(false));
}

#[test]
fn packed_states_read_back() {
    let mut link = sample();
    let mut data = BinaryIterator::new(vec![0b1010011]);
    link.get_blocks_to_change(&mut data);
    let stream = link.serialize_states();
    assert_eq!(stream, vec![0b1010011]);
    let before: Vec<IntfBlock> = link.outputs.clone();
    let mut data = BinaryIterator::new(stream);
    link.get_blocks_to_change(&mut data);
    assert_eq!(link.outputs, before);
}

#[test]
fn packed_states_across_bytes() {
    let mut link = Linker::new("wide".to_string());
    for i in 0..3 {
        link.add_block(dot(0), BlockPos::new(i, 0, 0));
        link.add_block(lamp(true), BlockPos::new(i, 1, 0));
    }
    assert_eq!(link.output_bits, 15);
    link.outputs[0].set_state(0xF);
    link.outputs[2].set_state(0x9);
    link.outputs[4].set_state(0x6);
    let stream = link.serialize_states();
    // 1111 1 1001 1 0110 1, lowest bit first
    assert_eq!(stream, vec![0b0011_1111, 0b0101_1011]);
    let states: Vec<u8> = link.outputs.iter().map(|o| o.state).collect();
    let mut data = BinaryIterator::new(stream);
    link.get_blocks_to_change(&mut data);
    assert_eq!(link.outputs.iter().map(|o| o.state).collect::<Vec<u8>>(), states);
    assert_eq!(Linker::new("none".to_string()).serialize_states(), Vec::<u8>::new());
}

#[test]
fn hex_lamp_encodes_four_bits() {
    let mut link = Linker::new("hex".to_string());
    link.add_block(dot(0xF), BlockPos::new(0, 0, 0));
    assert_eq!(link.serialize_states(), vec![0b0000_1111]);
    link.outputs[0].set_state(0x0);
    assert_eq!(link.serialize_states(), vec![0b0000_0000]);
}

fn node(ty: NodeType, block: Option<(BlockPos, u32)>) -> CompileNode {
    CompileNode { ty, block, state: NodeState { powered: false, repeater_locked: false, output_strength: 0 } }
}

#[test]
fn graph_blocks_are_linked_in_node_order() {
    let mut graph = CompileGraph::new();
    graph.add_node(node(NodeType::Lamp, Some((BlockPos::new(0, 0, 0), 5140))));
    graph.add_node(node(NodeType::Torch, Some((BlockPos::new(9, 0, 0), 3885))));
    graph.add_node(node(NodeType::Lever, Some((BlockPos::new(1, 0, 0), 3782))));
    graph.add_node(node(NodeType::Constant, None));
    graph.add_node(node(NodeType::Wire, Some((BlockPos::new(2, 0, 0), (2 * 432 + 2 * 144 + 5 * 9 + 2 * 3 + 2 + 2056)))));
    graph.add_node(node(NodeType::Button, Some((BlockPos::new(3, 0, 0), 3895))));
    graph.add_node(node(NodeType::Trapdoor, Some((BlockPos::new(4, 0, 0), 7002))));
    let mut link = Linker::new("graph".to_string());
    link.add_graph(&graph);
    let outputs: Vec<(IntfType, i32, u8)> = link.outputs.iter().map(|b| (b.ty, b.pos.x, b.state)).collect();
    assert_eq!(
        outputs,
        vec![
            (IntfType::Lamp, 0, 1),
            (IntfType::HexLamp, 2, 5),
            (IntfType::Trapdoor { facing: BlockDirection::North, half: TrapdoorHalf::Top }, 4, 1),
        ]
    );
    let inputs: Vec<(IntfType, i32, u8)> = link.inputs.iter().map(|b| (b.ty, b.pos.x, b.state)).collect();
    assert_eq!(
        inputs,
        vec![
            (IntfType::Lever { face: LeverFace::Floor, facing: BlockDirection::North }, 1, 0),
            (IntfType::Button { face: ButtonFace::Floor, facing: BlockDirection::North }, 3, 1),
        ]
    );
    assert_eq!(link.output_bits, 6);
    assert_eq!(link.input_bits, 2);
}

#[test]
fn well_formed_linkers_are_told_apart() {
    let mut link = sample();
    assert!(link.is_wf());
    link.output_bits += 1;
    assert!(!link.is_wf());
    link.output_bits -= 1;
    link.input_bits = 0;
    assert!(!link.is_wf());
    assert!(Linker::new("none".to_string()).is_wf());
}

#[test]
fn world_blocks_of_state_numbers() {
    assert_eq!(WorldBlock::from_block_state(3805), WorldBlock::StonePressurePlate(true));
    assert_eq!(WorldBlock::from_block_state(3806), WorldBlock::StonePressurePlate(false));
    assert_eq!(
        WorldBlock::from_block_state(3895),
        WorldBlock::StoneButton(StoneButton::new(ButtonFace::Floor, BlockDirection::North, true))
    );
    assert_eq!(
        WorldBlock::from_block_state(3918),
        WorldBlock::StoneButton(StoneButton::new(ButtonFace::Ceiling, BlockDirection::East, false))
    );
    assert_eq!(
        WorldBlock::from_block_state(7001),
        WorldBlock::IronTrapdoor(BlockDirection::North, TrapdoorHalf::Top, true)
    );
    assert_eq!(
        WorldBlock::from_block_state(7064),
        WorldBlock::IronTrapdoor(BlockDirection::East, TrapdoorHalf::Bottom, false)
    );
    assert_eq!(WorldBlock::from_block_state(5140), lamp(true));
    assert_eq!(WorldBlock::from_block_state(0), WorldBlock::Plain(Block::Air));
    assert_eq!(WorldBlock::from_block_state(7000), WorldBlock::Plain(Block::Solid(7000)));
    // the table itself takes the three kinds for plain blocks
    assert_eq!(Block::from_block_state(3805), Block::Solid(3805));
    assert_eq!(Block::from_block_state(3900), Block::Solid(3900));
    assert_eq!(Block::from_block_state(7001), Block::Solid(7001));
}
