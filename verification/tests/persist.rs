use redstone_fpga::blocks::{
    Block, BlockDirection, BlockPos, ButtonFace, Lever, LeverFace, RedstoneWire, RedstoneWireSide,
    StoneButton, TrapdoorHalf, WorldBlock,
};
use redstone_fpga::interface::BinaryIterator;
use redstone_fpga::linker::{IntfBlock, IntfType, Linker};
use redstone_fpga::persist::{
    push_quoted, read_block, read_int, read_list, read_number, read_string, read_type, squeeze,
};

fn dot(power: u8) -> WorldBlock {
    let n = RedstoneWireSide::Unconnected;
    WorldBlock::Plain(Block::RedstoneWire(RedstoneWire::new(n, n, n, n, power)))
}

fn lamp(lit: bool) -> WorldBlock {
    WorldBlock::Plain(Block::RedstoneLamp(lit))
}


fn lever(face: LeverFace, facing: BlockDirection, powered: bool) -> WorldBlock {
    WorldBlock::Plain(Block::Lever(Lever::new(face, facing, powered)))
}

fn plot() -> Linker {
    let mut link = Linker::new("adder".to_string());
    link.add_block(lamp(false), BlockPos::new(0, 1, 0));
    link.add_block(lamp(false), BlockPos::new(1, 1, 0));
    link.add_block(lamp(true), BlockPos::new(2, 1, 0));
    link.add_block(dot(0), BlockPos::new(3, 1, 0));
    link.add_block(lever(LeverFace::Floor, BlockDirection::North, false), BlockPos::new(0, 1, 5));
    link.add_block(lever(LeverFace::Wall, BlockDirection::East, true), BlockPos::new(-1, 1, -5));
    link
}

#[test]
fn linker_round_trip() {
    let mut link = plot();
    assert_eq!(link.output_bits, 3 * 1 + 1 * 4);
    assert_eq!(link.get_output_bytes(), 1);
    let json = link.generate_link_file();
    let back = Linker::parse_link_file(&json).unwrap();
    assert_eq!(back, link);
    assert_eq!(back.generate_link_file(), json);
    let mut data = BinaryIterator::new(vec![0b1010011]);
    let blocks = link.get_blocks_to_change(&mut data);
    assert_eq!(blocks[0], (BlockPos::new(0, 1, 0), lamp(true)));
    assert_eq!(blocks[1], (BlockPos::new(1, 1, 0), lamp(true)));
    assert_eq!(blocks[2], (BlockPos::new(2, 1, 0), lamp(false)));
    assert_eq!(blocks[3], (BlockPos::new(3, 1, 0), dot(10)));
    // the states that were read persist as well
    let again = Linker::parse_link_file(&link.generate_link_file()).unwrap();
    assert_eq!(again, link);
    assert_eq!(again.outputs[3].state, 10);
}

#[test]
fn canonical_text() {
    let link = plot();
    let json = String::from_utf8(link.generate_link_file()).unwrap();
    assert_eq!(
        json,
        "{\"name\":\"adder\",\"outputs\":[{\"ty\":\"Lamp\",\"pos\":{\"x\":0,\"y\":1,\"z\":0},\"state\":0},{\"ty\":\"Lamp\",\"pos\":{\"x\":1,\"y\":1,\"z\":0},\"state\":0},{\"ty\":\"Lamp\",\"pos\":{\"x\":2,\"y\":1,\"z\":0},\"state\":1},{\"ty\":\"HexLamp\",\"pos\":{\"x\":3,\"y\":1,\"z\":0},\"state\":0}],\"output_bits\":7,\"inputs\":[{\"ty\":{\"Lever\":{\"face\":\"Floor\",\"facing\":\"North\"}},\"pos\":{\"x\":0,\"y\":1,\"z\":5},\"state\":0},{\"ty\":{\"Lever\":{\"face\":\"Wall\",\"facing\":\"East\"}},\"pos\":{\"x\":-1,\"y\":1,\"z\":-5},\"state\":1}],\"input_bits\":2}"
    );
    let empty = String::from_utf8(Linker::new(String::new()).generate_link_file()).unwrap();
    assert_eq!(empty, "{\"name\":\"\",\"outputs\":[],\"output_bits\":0,\"inputs\":[],\"input_bits\":0}");
}

#[test]
fn canonical_text_is_json() {
    let link = plot();
    let value: serde_json::Value = serde_json::from_slice(&link.generate_link_file()).unwrap();
    assert_eq!(value["name"], "adder");
    assert_eq!(value["output_bits"], 7);
    assert_eq!(value["input_bits"], 2);
    assert_eq!(value["outputs"].as_array().unwrap().len(), 4);
    assert_eq!(value["outputs"][3]["ty"], "HexLamp");
    assert_eq!(value["inputs"][1]["ty"]["Lever"]["facing"], "East");
    assert_eq!(value["inputs"][1]["pos"]["z"], -5);
}

#[test]
fn every_kind_round_trips_in_any_order() {
    let kinds = vec![
        WorldBlock::StonePressurePlate(true),
        WorldBlock::IronTrapdoor(BlockDirection::West, TrapdoorHalf::Bottom, true),
        dot(15),
        WorldBlock::StoneButton(StoneButton::new(ButtonFace::Ceiling, BlockDirection::South, false)),
        lamp(true),
        lever(LeverFace::Ceiling, BlockDirection::West, true),
        WorldBlock::IronTrapdoor(BlockDirection::North, TrapdoorHalf::Top, false),
        WorldBlock::StoneButton(StoneButton::new(ButtonFace::Floor, BlockDirection::East, true)),
    ];
    for shift in 0..kinds.len() {
        let mut link = Linker::new(format!("order {}", shift));
        for i in 0..kinds.len() {
            let block = kinds[(i + shift) % kinds.len()];
            link.add_block(block, BlockPos::new(i as i32 - 4, u32::MAX - i as u32, i32::MIN + i as i32));
        }
        let json = link.generate_link_file();
        let back = Linker::parse_link_file(&json).unwrap();
        assert_eq!(back, link);
        assert_eq!(back.outputs.len() + back.inputs.len(), kinds.len());
    }
}

#[test]
fn names_with_special_characters_round_trip() {
    for name in ["", "a \"quoted\" name", "back\\slash", "tab\there", "line\nbreak\r", "\u{1}\u{1f}", "ünïcödé ✓ 名前"] {
        let mut link = Linker::new(name.to_string());
        link.add_block(lamp(true), BlockPos::new(i32::MAX, 0, i32::MIN));
        let json = link.generate_link_file();
        assert_eq!(Linker::parse_link_file(&json).unwrap(), link);
        let value: serde_json::Value = serde_json::from_slice(&json).unwrap();
        assert_eq!(value["name"], name);
    }
    let mut out = Vec::new();
    push_quoted(&mut out, b"a\"b\\c\x01\x1f");
    assert_eq!(out, b"\"a\\\"b\\\\c\\u0001\\u001f\"".to_vec());
}

#[test]
fn bit_counts_are_kept_as_written() {
    let mut link = plot();
    link.output_bits = u32::MAX;
    link.input_bits = 0;
    let back = Linker::parse_link_file(&link.generate_link_file()).unwrap();
    assert_eq!(back.output_bits, u32::MAX);
    assert_eq!(back.input_bits, 0);
    assert_eq!(back, link);
}

#[test]
fn other_texts_are_refused() {
    let good = String::from_utf8(plot().generate_link_file()).unwrap();
    assert!(Linker::parse_link_file(good.as_bytes()).is_some());
    assert!(Linker::parse_link_file(b"").is_none());
    assert!(Linker::parse_link_file(b"{}").is_none());
    assert!(Linker::parse_canonical(good.as_bytes()).is_some());
    assert!(Linker::parse_canonical(format!("{} ", good).as_bytes()).is_none());
    assert!(Linker::parse_canonical(format!(" {}", good).as_bytes()).is_none());
    assert!(Linker::parse_link_file(format!("{}x", good).as_bytes()).is_none());
    assert!(Linker::parse_link_file(good.replace("\"output_bits\":7", "\"output_bits\":07").as_bytes()).is_none());
    assert!(Linker::parse_link_file(good.replace("\"output_bits\":7", "\"output_bits\":4294967296").as_bytes()).is_none());
    assert!(Linker::parse_link_file(good.replace("\"state\":1", "\"state\":256").as_bytes()).is_none());
    assert!(Linker::parse_link_file(good.replace("HexLamp", "Hexlamp").as_bytes()).is_none());
    assert!(Linker::parse_link_file(good.replace("\"North\"", "\"Up\"").as_bytes()).is_none());
    assert!(Linker::parse_link_file(good.replace("\"x\":-1", "\"x\":-0").as_bytes()).is_none());
    assert!(Linker::parse_link_file(good.replace("\"x\":-1", "\"x\":-2147483649").as_bytes()).is_none());
    assert!(Linker::parse_link_file(good.replace("\"x\":-1", "\"x\":-2147483648").as_bytes()).is_some());
    assert!(Linker::parse_link_file(good.replace("adder", "add\\ner").as_bytes()).is_none());
    assert!(Linker::parse_link_file(good.replace("adder", "add\ner").as_bytes()).is_none());
    assert!(Linker::parse_link_file(good.replace("],\"output_bits\"", ",],\"output_bits\"").as_bytes()).is_none());
    let mut bad_name = good.clone().into_bytes();
    bad_name[9] = 0xFF;
    assert!(Linker::parse_link_file(&bad_name).is_none());
}

#[test]
fn readers_return_value_and_position() {
    assert_eq!(read_number(b"x123,", 1, 1000), Some((123, 4)));
    assert_eq!(read_number(b"x123,", 1, 100), None);
    assert_eq!(read_number(b"0", 0, 0), Some((0, 1)));
    assert_eq!(read_number(b"00", 0, 9), None);
    assert_eq!(read_number(b"", 0, 9), None);
    assert_eq!(read_number(b"4294967295", 0, u32::MAX), Some((u32::MAX, 10)));
    assert_eq!(read_number(b"99999999999999999999", 0, u32::MAX), None);
    assert_eq!(read_int(b"-17}", 0), Some((-17, 3)));
    assert_eq!(read_int(b"2147483647", 0), Some((i32::MAX, 10)));
    assert_eq!(read_int(b"2147483648", 0), None);
    assert_eq!(read_int(b"-", 0), None);
    assert_eq!(read_string(b"\"a\\\"b\" rest", 0), Some((b"a\"b".to_vec(), 6)));
    assert_eq!(read_string(b"\"\\u0041\"", 0), None);
    assert_eq!(read_string(b"\"\\u001F\"", 0), None);
    assert_eq!(read_string(b"\"open", 0), None);
    assert_eq!(read_type(b"\"Lamp\"", 0), Some((IntfType::Lamp, 6)));
    let trapdoor = b"{\"Trapdoor\":{\"facing\":\"South\",\"half\":\"Top\"}}";
    assert_eq!(
        read_type(trapdoor, 0),
        Some((IntfType::Trapdoor { facing: BlockDirection::South, half: TrapdoorHalf::Top }, trapdoor.len()))
    );
    assert_eq!(read_type(b"{\"Trapdoor\":{\"half\":\"Top\",\"facing\":\"South\"}}", 0), None);
    let text = b"[{\"ty\":\"PressurePlate\",\"pos\":{\"x\":1,\"y\":2,\"z\":3},\"state\":1}]";
    let plate = IntfBlock { ty: IntfType::PressurePlate, pos: BlockPos::new(1, 2, 3), state: 1 };
    assert_eq!(read_block(text, 1), Some((plate, text.len() - 1)));
    assert_eq!(read_list(text, 0), Some((vec![plate], text.len())));
    assert_eq!(read_list(b"[]", 0), Some((Vec::new(), 2)));
    assert_eq!(read_list(b"[", 0), None);
}

#[test]
fn blanks_between_tokens_are_passed_over() {
    let pretty = "{
  \"name\": \"one lamp\",
  \"outputs\": [
    {
      \"ty\": \"Lamp\",
      \"pos\": {
        \"x\": -4,
        \"y\": 70,
        \"z\": 12
      },
      \"state\": 1
    }
  ],
  \"output_bits\": 1,
  \"inputs\": [
    {
      \"ty\": {
        \"Lever\": {
          \"face\": \"Wall\",
          \"facing\": \"East\"
        }
      },
      \"pos\": {
        \"x\": 0,
        \"y\": 1,
        \"z\": 2
      },
      \"state\": 0
    }
  ],
  \"input_bits\": 1
}";
    let mut expected = Linker::new("one lamp".to_string());
    expected.add_block(lamp(true), BlockPos::new(-4, 70, 12));
    expected.add_block(lever(LeverFace::Wall, BlockDirection::East, false), BlockPos::new(0, 1, 2));
    assert_eq!(Linker::parse_link_file(pretty.as_bytes()).unwrap(), expected);
    let link = plot();
    let json = link.generate_link_file();
    let spaced = String::from_utf8(json.clone()).unwrap().replace(",", " ,\n\t").replace(":", ": ").replace("[", "[\r\n ");
    assert_eq!(Linker::parse_link_file(spaced.as_bytes()).unwrap(), link);
    assert_eq!(Linker::parse_link_file(format!(" {}\n", String::from_utf8(json).unwrap()).as_bytes()).unwrap(), link);
    assert!(Linker::parse_canonical(spaced.as_bytes()).is_none());
}

#[test]
fn blanks_inside_names_stay() {
    let mut link = Linker::new("two  words,\there: [x]".to_string());
    link.add_block(lamp(true), BlockPos::new(1, 2, 3));
    let text = String::from_utf8(link.generate_link_file()).unwrap();
    let spaced = text.replace("\"outputs\"", "\n  \"outputs\"").replace("{\"ty\"", "{ \"ty\"");
    assert_eq!(Linker::parse_link_file(spaced.as_bytes()).unwrap(), link);
    assert_eq!(squeeze(b" a \" b \\\" c \" d\n"), b"a\" b \\\" c \"d".to_vec());
    assert_eq!(squeeze(b""), Vec::<u8>::new());
}
