use redstone_fpga::blocks::{
    block_powered_mut, BlockEntity, PlacementFacts, UseOnBlockContext, WorldAction, WorldBlock,
    Block, BlockDirection, BlockFace, BlockPos, ButtonFace, ComparatorMode, Lever, LeverFace,
    RedstoneComparator, RedstoneRepeater, RedstoneWire, RedstoneWireSide, StoneButton, TrapdoorHalf,
};

#[test]
fn repeater_id_test() {
    let original =
        Block::RedstoneRepeater(RedstoneRepeater::new(3, BlockDirection::West, true, false));
    let id = original.get_id();
    assert_eq!(id, 4058);
    let new = Block::from_block_state(id);
    assert_eq!(new, original);
}

#[test]
fn comparator_id_test() {
    let original = Block::RedstoneComparator(RedstoneComparator::new(
        BlockDirection::West,
        ComparatorMode::Subtract,
        false,
    ));
    let id = original.get_id();
    assert_eq!(id, 6153);
    let new = Block::from_block_state(id);
    assert_eq!(new, original);
}

#[test]
fn state_numbers_round_trip() {
    for id in (0u32..12000).chain([u32::MAX]) {
        let block = Block::from_block_state(id);
        assert_eq!(block.get_id(), id);
        assert_eq!(Block::from_block_state(block.get_id()), block);
        match block {
            Block::RedstoneRepeater(r) => assert!(1 <= r.delay && r.delay <= 4),
            Block::RedstoneWire(w) => assert!(w.power <= 15),
            _ => {}
        }
    }
}

#[test]
fn known_state_numbers() {
    assert_eq!(Block::from_block_state(0), Block::Air);
    assert_eq!(Block::from_block_state(230), Block::Transparent(230));
    assert_eq!(Block::from_block_state(3372), Block::Container(3372));
    assert_eq!(Block::from_block_state(11136), Block::Container(11136));
    assert_eq!(Block::from_block_state(3885), Block::RedstoneTorch(true));
    assert_eq!(Block::from_block_state(3886), Block::RedstoneTorch(false));
    assert_eq!(Block::from_block_state(3888), Block::RedstoneWallTorch(false, BlockDirection::North));
    assert_eq!(Block::from_block_state(5140), Block::RedstoneLamp(true));
    assert_eq!(Block::from_block_state(5141), Block::RedstoneLamp(false));
    assert_eq!(Block::from_block_state(6190), Block::RedstoneBlock);
    assert_eq!(Block::from_block_state(245), Block::Solid(245));
    assert_eq!(
        Block::from_block_state(3781),
        Block::Lever(Lever::new(LeverFace::Floor, BlockDirection::North, true))
    );
    assert_eq!(
        Block::from_block_state(3804),
        Block::Lever(Lever::new(LeverFace::Ceiling, BlockDirection::East, false))
    );
    let n = RedstoneWireSide::Unconnected;
    assert_eq!(Block::RedstoneWire(RedstoneWire::new(n, n, n, n, 15)).get_id(), 2 * 432 + 2 * 144 + 15 * 9 + 2 * 3 + 2 + 2056);
    assert_eq!(
        Block::from_block_state(2056),
        Block::RedstoneWire(RedstoneWire::new(
            RedstoneWireSide::Up,
            RedstoneWireSide::Up,
            RedstoneWireSide::Up,
            RedstoneWireSide::Up,
            0
        ))
    );
    assert_eq!(Block::from_block_state(3805), Block::Solid(3805));
    assert_eq!(Block::from_block_state(3895), Block::Solid(3895));
    assert_eq!(Block::from_block_state(7001), Block::Solid(7001));
    assert_eq!(Block::Solid(7001).get_id(), 7001);
}

#[test]
fn block_classes() {
    assert!(Block::Solid(1).is_cube() && Block::RedstoneLamp(false).is_cube() && Block::RedstoneBlock.is_cube());
    assert!(!Block::Air.is_cube() && !Block::RedstoneTorch(true).is_cube());
    assert!(Block::RedstoneBlock.is_transparent() && Block::Transparent(230).is_transparent());
    assert!(!Block::Solid(1).is_transparent());
    assert!(Block::Container(3372).is_solid() && Block::Container(3372).has_comparator_override());
    assert!(Block::RedstoneComparator(RedstoneComparator::default()).has_block_entity());
    assert!(Block::RedstoneRepeater(RedstoneRepeater::default()).is_diode());
    assert!(!Block::Lever(Lever::default()).is_diode());
    assert!(Block::Air.can_place_block_in());
    assert!(Block::Solid(34).can_place_block_in() && Block::Solid(65).can_place_block_in());
    assert!(Block::Solid(9129).can_place_block_in() && Block::Solid(7360).can_place_block_in());
    assert!(!Block::Solid(66).can_place_block_in() && !Block::RedstoneLamp(true).can_place_block_in());
}

#[test]
fn positions() {
    let pos = BlockPos::new(1, 0, -1);
    assert_eq!(pos.offset(BlockFace::Bottom), BlockPos::new(1, 0, -1));
    assert_eq!(pos.offset(BlockFace::Top), BlockPos::new(1, 1, -1));
    assert_eq!(pos.offset(BlockFace::North), BlockPos::new(1, 0, -2));
    assert_eq!(pos.offset(BlockFace::South), BlockPos::new(1, 0, 0));
    assert_eq!(pos.offset(BlockFace::West), BlockPos::new(0, 0, -1));
    assert_eq!(pos.offset(BlockFace::East), BlockPos::new(2, 0, -1));
    assert_eq!(BlockPos::new(1, 9, -4) - BlockPos::new(3, 2, -7), BlockPos::new(-2, 7, 3));
    assert_eq!(BlockPos::new(1, 9, -4).max(BlockPos::new(3, 2, -7)), BlockPos::new(3, 9, -4));
    assert_eq!(BlockPos::new(1, 9, -4).min(BlockPos::new(3, 2, -7)), BlockPos::new(1, 2, -7));
}

#[test]
fn directions_and_faces() {
    for d in BlockDirection::values() {
        assert_eq!(BlockDirection::from_id(d.get_id()), d);
        assert_eq!(d.opposite().opposite(), d);
        assert_eq!(d.rotate().rotate_ccw(), d);
        assert_eq!(d.block_face().to_direction(), d);
        assert!(d.block_face().is_horizontal());
    }
    assert_eq!(BlockDirection::from_id(2), BlockDirection::West);
    assert_eq!(BlockDirection::North.rotate(), BlockDirection::East);
    assert_eq!(BlockDirection::from_str("north"), BlockDirection::North);
    assert_eq!(BlockDirection::from_str("south"), BlockDirection::South);
    assert_eq!(BlockDirection::from_str("east"), BlockDirection::East);
    assert_eq!(BlockDirection::from_str("west"), BlockDirection::West);
    assert_eq!(BlockDirection::from_str("up"), BlockDirection::West);
    assert_eq!(BlockDirection::default(), BlockDirection::West);
    assert_eq!(BlockFace::values().len(), 6);
    assert_eq!(BlockFace::from_id(0), BlockFace::Bottom);
    assert_eq!(BlockFace::from_id(5), BlockFace::East);
    assert!(!BlockFace::Top.is_horizontal());
    assert_eq!(BlockFace::Top.to_direction(), BlockDirection::West);
    assert_eq!(ComparatorMode::Compare.toggle(), ComparatorMode::Subtract);
}

#[test]
fn blocks_by_name() {
    assert_eq!(Block::from_name("air"), Some(Block::Air));
    assert_eq!(Block::from_name("glass"), Some(Block::Transparent(230)));
    assert_eq!(Block::from_name("quartz_slab"), Some(Block::Transparent(7855)));
    assert_eq!(Block::from_name("smooth_stone_slab"), Some(Block::Transparent(7807)));
    assert_eq!(Block::from_name("sandstone"), Some(Block::Solid(245)));
    assert_eq!(Block::from_name("stone_bricks"), Some(Block::Solid(4481)));
    assert_eq!(Block::from_name("white_terracotta"), Some(Block::Solid(6311)));
    assert_eq!(Block::from_name("megenta_terracotta"), Some(Block::Solid(6313)));
    assert_eq!(Block::from_name("black_terracotta"), Some(Block::Solid(6326)));
    assert_eq!(Block::from_name("white_concrete"), Some(Block::Solid(8902)));
    assert_eq!(Block::from_name("black_concrete"), Some(Block::Solid(8917)));
    assert_eq!(Block::from_name("redstone_wire"), Some(Block::RedstoneWire(RedstoneWire::default())));
    assert_eq!(Block::from_name("redstone_torch"), Some(Block::RedstoneTorch(true)));
    assert_eq!(Block::from_name("redstone_wall_torch"), Some(Block::RedstoneWallTorch(true, BlockDirection::West)));
    assert_eq!(Block::from_name("redstone_block"), Some(Block::RedstoneBlock));
    assert_eq!(Block::from_name("redstone_lamp"), Some(Block::RedstoneLamp(false)));
    assert_eq!(Block::from_name("repeater"), Some(Block::RedstoneRepeater(RedstoneRepeater::default())));
    assert_eq!(Block::from_name("comparator"), Some(Block::RedstoneComparator(RedstoneComparator::default())));
    assert_eq!(Block::from_name("furnace"), Some(Block::Container(3372)));
    assert_eq!(Block::from_name("barrel"), Some(Block::Container(11136)));
    assert_eq!(Block::from_name("lever"), Some(Block::Lever(Lever::default())));
    assert_eq!(Block::from_name("magenta_terracotta"), None);
    assert_eq!(Block::from_name("Air"), None);
    assert_eq!(Block::from_name(""), None);
    assert_eq!(RedstoneRepeater::default().delay, 1);
    assert_eq!(Lever::default().face, LeverFace::Wall);
}

#[test]
fn properties_from_text() {
    let mut wire = Block::from_name("redstone_wire").unwrap();
    wire.set_property("north", "up");
    wire.set_property("east", "side");
    wire.set_property("west", "sideways");
    wire.set_property("power", "12");
    wire.set_property("lit", "true");
    assert_eq!(
        wire,
        Block::RedstoneWire(RedstoneWire::new(
            RedstoneWireSide::Up,
            RedstoneWireSide::Unconnected,
            RedstoneWireSide::Side,
            RedstoneWireSide::Unconnected,
            12
        ))
    );
    wire.set_property("power", "300");
    match wire {
        Block::RedstoneWire(w) => assert_eq!(w.power, 0),
        _ => unreachable!(),
    }
    let mut repeater = Block::from_name("repeater").unwrap();
    repeater.set_property("delay", "3");
    repeater.set_property("facing", "north");
    repeater.set_property("locked", "true");
    repeater.set_property("powered", "yes");
    assert_eq!(repeater, Block::RedstoneRepeater(RedstoneRepeater::new(3, BlockDirection::North, true, false)));
    repeater.set_property("delay", "many");
    assert_eq!(repeater, Block::RedstoneRepeater(RedstoneRepeater::new(1, BlockDirection::North, true, false)));
    let mut comparator = Block::from_name("comparator").unwrap();
    comparator.set_property("mode", "subtract");
    comparator.set_property("powered", "true");
    comparator.set_property("facing", "east");
    assert_eq!(
        comparator,
        Block::RedstoneComparator(RedstoneComparator::new(BlockDirection::East, ComparatorMode::Subtract, true))
    );
    comparator.set_property("mode", "compare");
    comparator.set_property("powered", "false");
    assert_eq!(
        comparator,
        Block::RedstoneComparator(RedstoneComparator::new(BlockDirection::East, ComparatorMode::Compare, false))
    );
    let mut lever = Block::from_name("lever").unwrap();
    lever.set_property("face", "ceiling");
    lever.set_property("facing", "south");
    lever.set_property("powered", "true");
    assert_eq!(lever, Block::Lever(Lever::new(LeverFace::Ceiling, BlockDirection::South, true)));
    let mut torch = Block::RedstoneWallTorch(true, BlockDirection::West);
    torch.set_property("lit", "false");
    torch.set_property("facing", "north");
    assert_eq!(torch, Block::RedstoneWallTorch(false, BlockDirection::North));
    let mut lamp = Block::RedstoneLamp(false);
    lamp.set_property("lit", "true");
    lamp.set_property("power", "3");
    assert_eq!(lamp, Block::RedstoneLamp(true));
    let mut stone = Block::Solid(1);
    stone.set_property("lit", "true");
    assert_eq!(stone, Block::Solid(1));
    let mut dust = Block::RedstoneWire(RedstoneWire::default());
    dust.set_parsed_property("power", "ignored", Some(7));
    assert_eq!(dust, Block::RedstoneWire(RedstoneWire { power: 7, ..RedstoneWire::default() }));
}

#[test]
fn powered_flags() {
    let mut lamp = WorldBlock::Plain(Block::RedstoneLamp(false));
    *block_powered_mut(&mut lamp).unwrap() = true;
    assert_eq!(lamp, WorldBlock::Plain(Block::RedstoneLamp(true)));
    let mut repeater =
        WorldBlock::Plain(Block::RedstoneRepeater(RedstoneRepeater::new(2, BlockDirection::East, true, false)));
    *block_powered_mut(&mut repeater).unwrap() = true;
    assert_eq!(
        repeater,
        WorldBlock::Plain(Block::RedstoneRepeater(RedstoneRepeater::new(2, BlockDirection::East, true, true)))
    );
    let mut torch = WorldBlock::Plain(Block::RedstoneWallTorch(true, BlockDirection::West));
    *block_powered_mut(&mut torch).unwrap() = false;
    assert_eq!(torch, WorldBlock::Plain(Block::RedstoneWallTorch(false, BlockDirection::West)));
    let mut door = WorldBlock::IronTrapdoor(BlockDirection::North, TrapdoorHalf::Top, true);
    *block_powered_mut(&mut door).unwrap() = false;
    assert_eq!(door, WorldBlock::IronTrapdoor(BlockDirection::North, TrapdoorHalf::Top, false));
    let mut button = WorldBlock::StoneButton(StoneButton::new(ButtonFace::Wall, BlockDirection::East, false));
    *block_powered_mut(&mut button).unwrap() = true;
    assert_eq!(button, WorldBlock::StoneButton(StoneButton::new(ButtonFace::Wall, BlockDirection::East, true)));
    let mut plate = WorldBlock::StonePressurePlate(false);
    *block_powered_mut(&mut plate).unwrap() = true;
    assert_eq!(plate, WorldBlock::StonePressurePlate(true));
    let mut air = WorldBlock::Plain(Block::Air);
    assert!(block_powered_mut(&mut air).is_none());
    let mut dust = WorldBlock::Plain(Block::RedstoneWire(RedstoneWire::default()));
    assert!(block_powered_mut(&mut dust).is_none());
}

#[test]
fn use_of_a_block() {
    let repeater = |delay| Block::RedstoneRepeater(RedstoneRepeater::new(delay, BlockDirection::East, false, true));
    assert_eq!(repeater(1).on_use(), Some(repeater(2)));
    assert_eq!(repeater(3).on_use(), Some(repeater(4)));
    assert_eq!(repeater(4).on_use(), Some(repeater(1)));
    let comparator = |mode| Block::RedstoneComparator(RedstoneComparator::new(BlockDirection::North, mode, false));
    assert_eq!(comparator(ComparatorMode::Compare).on_use(), Some(comparator(ComparatorMode::Subtract)));
    assert_eq!(comparator(ComparatorMode::Subtract).on_use(), Some(comparator(ComparatorMode::Compare)));
    assert_eq!(
        Block::Lever(Lever::new(LeverFace::Wall, BlockDirection::South, false)).on_use(),
        Some(Block::Lever(Lever::new(LeverFace::Wall, BlockDirection::South, true)))
    );
    assert_eq!(Block::RedstoneLamp(true).on_use(), None);
    assert_eq!(Block::Air.on_use(), None);
}

#[test]
fn support_of_a_block() {
    assert_eq!(Block::RedstoneTorch(true).support_face(), Some(BlockFace::Bottom));
    assert_eq!(Block::RedstoneWire(RedstoneWire::default()).support_face(), Some(BlockFace::Bottom));
    assert_eq!(Block::RedstoneWallTorch(true, BlockDirection::North).support_face(), Some(BlockFace::South));
    assert_eq!(Block::Lever(Lever::new(LeverFace::Ceiling, BlockDirection::East, false)).support_face(), Some(BlockFace::Top));
    assert_eq!(Block::Lever(Lever::new(LeverFace::Wall, BlockDirection::East, false)).support_face(), Some(BlockFace::West));
    assert_eq!(Block::Lever(Lever::new(LeverFace::Floor, BlockDirection::East, false)).support_face(), Some(BlockFace::Bottom));
    assert_eq!(Block::Solid(1).support_face(), None);
    assert!(Block::RedstoneTorch(true).is_valid_position(Block::Solid(1)));
    assert!(!Block::RedstoneTorch(true).is_valid_position(Block::Air));
    assert!(!Block::RedstoneRepeater(RedstoneRepeater::default()).is_valid_position(Block::RedstoneTorch(true)));
    assert!(Block::RedstoneLamp(false).is_valid_position(Block::Air));
}

#[test]
fn comparator_reads_container_fullness() {
    let full = BlockEntity::Container { comparator_override: 9 };
    let signal = BlockEntity::Comparator { output_strength: 4 };
    assert_eq!(Block::Container(3372).get_comparator_override(Some(&full)), 9);
    assert_eq!(Block::Container(3372).get_comparator_override(Some(&signal)), 0);
    assert_eq!(Block::Container(3372).get_comparator_override(None), 0);
    assert_eq!(Block::Solid(1).get_comparator_override(Some(&full)), 0);
}

fn facts(support: Block) -> PlacementFacts {
    PlacementFacts {
        lamp_lit: true,
        repeater: RedstoneRepeater::new(2, BlockDirection::South, false, true),
        wire: RedstoneWire { power: 3, ..RedstoneWire::default() },
        support,
    }
}

#[test]
fn items_make_blocks() {
    let top = UseOnBlockContext { block_face: BlockFace::Top, player_direction: BlockDirection::East };
    let side = UseOnBlockContext { block_face: BlockFace::North, player_direction: BlockDirection::East };
    let under = UseOnBlockContext { block_face: BlockFace::Bottom, player_direction: BlockDirection::South };
    let stone = facts(Block::Solid(1));
    let place = |item, context: &UseOnBlockContext| Block::get_state_for_placement(item, context, &stone);
    assert_eq!(place(64, &top), Block::Transparent(230));
    assert_eq!(place(68, &top), Block::Solid(245));
    assert_eq!(place(82, &top), Block::Solid(1383));
    assert_eq!(place(97, &top), Block::Solid(1398));
    assert_eq!(place(413, &top), Block::Solid(8902));
    assert_eq!(place(428, &top), Block::Solid(8917));
    assert_eq!(place(164, &top), Block::Lever(Lever::new(LeverFace::Floor, BlockDirection::East, false)));
    assert_eq!(place(164, &under), Block::Lever(Lever::new(LeverFace::Ceiling, BlockDirection::South, false)));
    assert_eq!(place(164, &side), Block::Lever(Lever::new(LeverFace::Wall, BlockDirection::North, false)));
    assert_eq!(place(173, &top), Block::RedstoneTorch(true));
    assert_eq!(place(173, &side), Block::RedstoneWallTorch(true, BlockDirection::North));
    assert_eq!(place(234, &top), Block::RedstoneLamp(true));
    assert_eq!(place(272, &top), Block::RedstoneBlock);
    assert_eq!(place(513, &top), Block::RedstoneRepeater(RedstoneRepeater::new(2, BlockDirection::South, false, true)));
    assert_eq!(
        place(514, &top),
        Block::RedstoneComparator(RedstoneComparator::new(BlockDirection::West, ComparatorMode::Compare, false))
    );
    assert_eq!(place(600, &top), Block::RedstoneWire(RedstoneWire { power: 3, ..RedstoneWire::default() }));
    assert_eq!(place(9999, &top), Block::Solid(245));
    // what needs support stands on a full cube only
    let nothing = facts(Block::Air);
    assert_eq!(Block::get_state_for_placement(173, &top, &nothing), Block::Air);
    assert_eq!(Block::get_state_for_placement(600, &top, &nothing), Block::Air);
    assert_eq!(Block::get_state_for_placement(234, &top, &nothing), Block::RedstoneLamp(true));
}

#[test]
fn placing_and_destroying() {
    let pos = BlockPos::new(1, 5, 1);
    assert_eq!(
        Block::RedstoneLamp(false).place_in_plot(pos),
        vec![
            WorldAction::SetBlock(pos, Block::RedstoneLamp(false)),
            WorldAction::ChangeSurrounding(pos),
            WorldAction::UpdateSurrounding(pos),
        ]
    );
    let dust = Block::RedstoneWire(RedstoneWire::default());
    assert_eq!(
        dust.place_in_plot(pos),
        vec![WorldAction::SetBlock(pos, dust), WorldAction::ChangeSurrounding(pos), WorldAction::UpdateWireNeighbors(pos)]
    );
    assert_eq!(
        dust.destroy(pos),
        vec![WorldAction::SetBlock(pos, Block::Air), WorldAction::ChangeSurrounding(pos), WorldAction::UpdateWireNeighbors(pos)]
    );
    let comparator = Block::RedstoneComparator(RedstoneComparator::default());
    assert_eq!(
        comparator.destroy(pos),
        vec![
            WorldAction::DeleteBlockEntity(pos),
            WorldAction::SetBlock(pos, Block::Air),
            WorldAction::ChangeSurrounding(pos),
            WorldAction::UpdateSurrounding(pos),
        ]
    );
    let below = BlockPos::new(1, 4, 1);
    assert_eq!(
        Block::Lever(Lever::new(LeverFace::Floor, BlockDirection::North, true)).destroy(pos),
        vec![WorldAction::SetBlock(pos, Block::Air), WorldAction::ChangeSurrounding(below), WorldAction::UpdateSurrounding(below)]
    );
    let west = BlockPos::new(0, 5, 1);
    assert_eq!(
        Block::Lever(Lever::new(LeverFace::Wall, BlockDirection::East, true)).destroy(pos),
        vec![WorldAction::SetBlock(pos, Block::Air), WorldAction::ChangeSurrounding(west), WorldAction::UpdateSurrounding(west)]
    );
}

#[test]
fn ticks() {
    let pos = BlockPos::new(0, 1, 0);
    assert_eq!(Block::RedstoneRepeater(RedstoneRepeater::default()).tick(pos, false, false), vec![WorldAction::TickRepeater(pos)]);
    assert_eq!(Block::RedstoneComparator(RedstoneComparator::default()).tick(pos, false, false), vec![WorldAction::TickComparator(pos)]);
    assert_eq!(
        Block::RedstoneTorch(true).tick(pos, true, false),
        vec![WorldAction::SetBlock(pos, Block::RedstoneTorch(false)), WorldAction::UpdateSurrounding(pos)]
    );
    assert_eq!(
        Block::RedstoneTorch(false).tick(pos, false, false),
        vec![WorldAction::SetBlock(pos, Block::RedstoneTorch(true)), WorldAction::UpdateSurrounding(pos)]
    );
    assert!(Block::RedstoneTorch(true).tick(pos, false, false).is_empty());
    assert!(Block::RedstoneTorch(false).tick(pos, true, false).is_empty());
    assert_eq!(
        Block::RedstoneWallTorch(true, BlockDirection::West).tick(pos, true, false),
        vec![
            WorldAction::SetBlock(pos, Block::RedstoneWallTorch(false, BlockDirection::West)),
            WorldAction::UpdateSurrounding(pos)
        ]
    );
    assert_eq!(Block::RedstoneLamp(true).tick(pos, false, false), vec![WorldAction::SetBlock(pos, Block::RedstoneLamp(false))]);
    assert!(Block::RedstoneLamp(true).tick(pos, false, true).is_empty());
    assert!(Block::RedstoneLamp(false).tick(pos, false, false).is_empty());
    assert!(Block::Solid(1).tick(pos, true, true).is_empty());
}
