use redstone_fpga::assembler::{
    compare_selectors, distance_table, generate_verilog, is_locker, is_locking, port_distances,
    ss_to_idx, subtract_selectors,
};
use redstone_fpga::blocks::{BlockPos, ComparatorMode};
use redstone_fpga::graph::{CompileGraph, CompileLink, CompileNode, LinkType, NodeState, NodeType};
use redstone_fpga::passes::DiscreteComparators;

const HEADER: &str = "module RoC #(\n    parameter OUTPUTS,\n    parameter INPUTS\n) (\n    input                   tick,\n    input   [INPUTS-1:0]    inputs,\n    output  [OUTPUTS-1:0]   outputs\n);\n\n";

fn node(ty: NodeType) -> CompileNode {
    CompileNode {
        ty,
        block: None,
        state: NodeState { powered: false, repeater_locked: false, output_strength: 0 },
    }
}

fn link(ty: LinkType, ss: u8) -> CompileLink {
    CompileLink { ty, ss }
}

fn verilog(graph: &CompileGraph) -> String {
    String::from_utf8(generate_verilog(graph)).unwrap()
}

#[test]
fn identity_wire() {
    let mut graph = CompileGraph::new();
    let lever = graph.add_node(node(NodeType::Lever));
    let lamp = graph.add_node(node(NodeType::Lamp));
    graph.add_link(lever, lamp, link(LinkType::Default, 0));
    let text = verilog(&graph);
    assert!(text.contains("wire w0 = inputs[0];"));
    assert!(text.contains("assign outputs[0] = (1'b0|w0);"));
    assert_eq!(
        text,
        format!("{}\twire w0 = inputs[0];\n\tassign outputs[0] = (1'b0|w0);\nendmodule\n", HEADER)
    );
}

#[test]
fn empty_graph_is_an_empty_module() {
    let graph = CompileGraph::new();
    let text = verilog(&graph);
    assert_eq!(text, format!("{}endmodule\n", HEADER));
    assert!(text.ends_with("endmodule\n"));
}

#[test]
fn inputs_and_outputs_count_in_node_order() {
    let mut graph = CompileGraph::new();
    let a = graph.add_node(node(NodeType::Button));
    let lamp = graph.add_node(node(NodeType::Lamp));
    let b = graph.add_node(node(NodeType::PressurePlate));
    let door = graph.add_node(node(NodeType::Trapdoor));
    graph.add_link(a, lamp, link(LinkType::Default, 0));
    graph.add_link(b, door, link(LinkType::Default, 0));
    graph.add_link(a, door, link(LinkType::Default, 3));
    let text = verilog(&graph);
    assert_eq!(
        text,
        format!(
            "{}\twire w0 = inputs[0];\n\tassign outputs[0] = (1'b0|w0);\n\twire w2 = inputs[1];\n\tassign outputs[1] = (1'b0|w0|w2);\nendmodule\n",
            HEADER
        )
    );
}

#[test]
fn block_position_comment() {
    let mut graph = CompileGraph::new();
    let mut lever = node(NodeType::Lever);
    lever.block = Some((BlockPos::new(-3, 64, 12), 3781));
    graph.add_node(lever);
    let text = verilog(&graph);
    assert_eq!(text, format!("{}//block pos -3,64,12\n\twire w0 = inputs[0];\nendmodule\n", HEADER));
}

#[test]
fn torch_starts_opposite_to_its_state() {
    let mut graph = CompileGraph::new();
    let lever = graph.add_node(node(NodeType::Lever));
    let mut torch = node(NodeType::Torch);
    torch.state.powered = true;
    let torch = graph.add_node(torch);
    graph.add_link(lever, torch, link(LinkType::Default, 1));
    let text = verilog(&graph);
    assert!(text.contains("\twire w1;\n\ttorch #(.state(1'b0)) c1 (.i_clk(tick), .i_in(1'b0|w0), .o_out(w1));\n"));
}

#[test]
fn repeater_with_lock() {
    let mut graph = CompileGraph::new();
    let lever = graph.add_node(node(NodeType::Lever));
    let locker = graph.add_node(node(NodeType::Repeater { delay: 1, facing_diode: false }));
    let mut locked = node(NodeType::Repeater { delay: 3, facing_diode: false });
    locked.state.powered = true;
    let locked = graph.add_node(locked);
    graph.add_link(lever, locker, link(LinkType::Default, 0));
    graph.add_link(lever, locked, link(LinkType::Default, 0));
    graph.add_link(locker, locked, link(LinkType::Side, 0));
    assert!(is_locker(&graph, locker));
    assert!(!is_locker(&graph, locked));
    assert!(!is_locker(&graph, lever));
    assert!(is_locking(&graph, locked));
    assert!(!is_locking(&graph, locker));
    let text = verilog(&graph);
    assert!(text.contains("\twire w1;\n\trepeater #(.t(1), .state(1'b0), .lock_out(1), .lockable(0)) c1 (.i_clk(tick), .i_in(1'b0|w0), .i_lock(1'b0), .o_out(w1));\n"));
    assert!(text.contains("\twire w2;\n\trepeater #(.t(3), .state(1'b1), .lock_out(0), .lockable(1)) c2 (.i_clk(tick), .i_in(1'b0|w0), .i_lock(1'b0|w1), .o_out(w2));\n"));
}

#[test]
fn side_link_to_a_lamp_is_no_lock() {
    let mut graph = CompileGraph::new();
    let repeater = graph.add_node(node(NodeType::Repeater { delay: 2, facing_diode: false }));
    let lamp = graph.add_node(node(NodeType::Lamp));
    graph.add_link(repeater, lamp, link(LinkType::Side, 0));
    assert!(!is_locker(&graph, repeater));
    assert!(is_locking(&graph, lamp));
}

#[test]
fn constant_feeds_a_one_where_it_outlasts_the_link() {
    let mut graph = CompileGraph::new();
    let mut constant = node(NodeType::Constant);
    constant.state.output_strength = 5;
    let constant = graph.add_node(constant);
    let near = graph.add_node(node(NodeType::Lamp));
    let far = graph.add_node(node(NodeType::Lamp));
    graph.add_link(constant, near, link(LinkType::Default, 4));
    graph.add_link(constant, far, link(LinkType::Default, 5));
    let text = verilog(&graph);
    assert!(text.contains("\tassign outputs[0] = (1'b0|1'b1);\n"));
    assert!(text.contains("\tassign outputs[1] = (1'b0);\n"));
}

#[test]
fn link_index_counts_the_levels_that_pass() {
    assert_eq!(ss_to_idx(0x8001, 0), 1);
    assert_eq!(ss_to_idx(0x8001, 15), 0);
    assert_eq!(ss_to_idx(0xFFFF, 0), 15);
    assert_eq!(ss_to_idx(0xFFFF, 14), 1);
    assert_eq!(ss_to_idx(0x0001, 0), 1);
    assert_eq!(ss_to_idx(0b0000100000010001, 3), 3);
    assert_eq!(ss_to_idx(0b0000100000010001, 4), 2);
}

#[test]
fn link_index_is_in_the_bundle_where_a_level_is_cut_off() {
    for &states in &[0x8001u16, 0xFFFF, 0x0001, 0x0811, 0x4001] {
        for ss in 0u8..=15 {
            let idx = ss_to_idx(states, ss) as u32;
            let width = states.count_ones();
            let mask: u16 = if ss >= 15 { 0 } else { 0xFFFF >> (ss + 1) };
            assert!(idx <= width);
            assert_eq!(idx < width, states & !mask != 0);
        }
    }
}

#[test]
fn tables_list_distances_from_full_strength() {
    assert_eq!(port_distances(0x8001), vec![0, 15]);
    assert_eq!(port_distances(0x0801), vec![4, 15]);
    assert_eq!(port_distances(0x0000), vec![15]);
    assert_eq!(port_distances(0x2000), vec![2]);
    assert_eq!(distance_table(0x8001, 15), vec![0]);
    assert_eq!(distance_table(0x0001, 15), Vec::<u8>::new());
    assert_eq!(distance_table(0x0013, 15), vec![11, 14]);
}

#[test]
fn compare_selector_is_single() {
    // back levels 15 and 0, side level 0 alone: output level 15 takes the top back wire
    assert_eq!(compare_selectors(&vec![0, 15], &vec![15], 14), vec![(1, 1)]);
    // side level 15 as well: the top back wire, unless the top side wire
    assert_eq!(compare_selectors(&vec![0, 15], &vec![0, 15], 14), vec![(1, 2)]);
    // no back level reaches the output
    assert_eq!(compare_selectors(&vec![4, 15], &vec![15], 14), Vec::<(u8, u8)>::new());
}

#[test]
fn subtract_selectors_pair_back_and_side() {
    assert_eq!(subtract_selectors(&vec![0, 15], &vec![0, 15], 14), vec![(1, 1)]);
    assert_eq!(subtract_selectors(&vec![0, 15], &vec![15], 14), vec![(1, 1)]);
    assert_eq!(subtract_selectors(&vec![0, 1, 15], &vec![15], 10), vec![(1, 1)]);
    // both back levels pair with the same side wire: the later pair takes its place
    assert_eq!(subtract_selectors(&vec![0, 1, 15], &vec![5, 15], 3), vec![(1, 2)]);
    assert_eq!(subtract_selectors(&vec![0, 4, 15], &vec![2, 6, 15], 1), vec![(2, 3), (1, 2)]);
}

#[test]
fn subtract_comparator_emits_one_level_wire_and_the_anchor() {
    let mut graph = CompileGraph::new();
    let back = graph.add_node(node(NodeType::Lever));
    let side = graph.add_node(node(NodeType::Lever));
    let comp = graph.add_node(node(NodeType::Comparator {
        mode: ComparatorMode::Subtract,
        far_input: None,
        facing_diode: false,
        states: None,
    }));
    graph.add_link(back, comp, link(LinkType::Default, 0));
    graph.add_link(side, comp, link(LinkType::Side, 0));
    DiscreteComparators.run_pass(&mut graph);
    let text = verilog(&graph);
    let expected = format!(
        "{}\twire w0 = inputs[0];\n\twire w1 = inputs[1];\n\twire[1:0] w2_b = {{w0,1'b1}};\n\twire[1:0] w2_s = {{w1,1'b1}};\n\twire[1:0] w2_o = {{\n\t\t(w2_b[1]&~w2_s[1]),\n\t\t1'b1\n\t}};\n\twire[1:0] w2;\n\tcomp #(.size(2), .state(2'b01)) c2 (.i_clk(tick), .i_in(w2_o), .o_out(w2));\nendmodule\n",
        HEADER
    );
    assert_eq!(text, expected);
}

#[test]
fn compare_comparator_under_a_stronger_side_emits_the_anchor_only() {
    let mut graph = CompileGraph::new();
    let chain = graph.add_node(node(NodeType::Repeater { delay: 1, facing_diode: false }));
    let side = graph.add_node(node(NodeType::Lever));
    let comp = graph.add_node(node(NodeType::Comparator {
        mode: ComparatorMode::Compare,
        far_input: None,
        facing_diode: false,
        states: None,
    }));
    graph.add_link(chain, comp, link(LinkType::Default, 4));
    graph.add_link(side, comp, link(LinkType::Side, 0));
    DiscreteComparators.run_pass(&mut graph);
    let text = verilog(&graph);
    assert!(text.contains("\twire[1:0] w2_b = {w0,1'b1};\n"));
    assert!(text.contains("\twire[1:0] w2_s = {w1,1'b1};\n"));
    assert!(text.contains("\twire[0:0] w2_o = {\n\t\t1'b1\n\t};\n"));
    assert!(text.contains("\twire[0:0] w2;\n\tcomp #(.size(1), .state(1'b1)) c2 (.i_clk(tick), .i_in(w2_o), .o_out(w2));\n"));
}

#[test]
fn readers_take_a_wire_of_the_bundle() {
    let mut graph = CompileGraph::new();
    let mut comp = node(NodeType::FPGAComparator {
        mode: ComparatorMode::Compare,
        outputs: 0b1000100000000001,
        side: 1,
        back: 0b1000100000000001,
    });
    comp.state.output_strength = 11;
    let comp = graph.add_node(comp);
    let lamp = graph.add_node(node(NodeType::Lamp));
    let hex = graph.add_node(node(NodeType::Wire));
    graph.add_link(comp, lamp, link(LinkType::Default, 0));
    graph.add_link(comp, hex, link(LinkType::Default, 15));
    let text = verilog(&graph);
    assert!(text.contains("\twire[2:0] w0_o = {\n\t\tw0_b[2],\n\t\tw0_o[2]|w0_b[1],\n\t\t1'b1\n\t};\n"));
    assert!(text.contains("\twire[2:0] w0;\n\tcomp #(.size(3), .state(3'b011)) c0 (.i_clk(tick), .i_in(w0_o), .o_out(w0));\n"));
    assert!(text.contains("\tassign outputs[0] = (1'b0|w0[2]);\n"));
    // four wires from wire 0 would reach past a bundle of three
    assert!(text.contains("\tassign outputs[4:1] = 4'b0000;\n"));
}

#[test]
fn no_reader_reaches_past_a_bundle() {
    let mut graph = CompileGraph::new();
    let narrow = graph.add_node(node(NodeType::FPGAComparator {
        mode: ComparatorMode::Compare,
        outputs: 0b0000000000000001,
        side: 1,
        back: 1,
    }));
    let wide = graph.add_node(node(NodeType::FPGAComparator {
        mode: ComparatorMode::Compare,
        outputs: 0b1111000000000001,
        side: 1,
        back: 1,
    }));
    let lamp = graph.add_node(node(NodeType::Lamp));
    let hex = graph.add_node(node(NodeType::Wire));
    graph.add_link(narrow, lamp, link(LinkType::Default, 0));
    graph.add_link(wide, lamp, link(LinkType::Default, 2));
    graph.add_link(wide, hex, link(LinkType::Default, 14));
    graph.add_link(narrow, hex, link(LinkType::Default, 15));
    let text = verilog(&graph);
    // the index of the narrow bundle would be 1, past its one wire
    assert!(text.contains("\tassign outputs[0] = (1'b0|w1[2]|1'b0);\n"));
    // newest link first: the narrow bundle has no four wires
    assert!(text.contains("\tassign outputs[4:1] = 4'b0000;\n"));
    let mut other = CompileGraph::new();
    let wide = other.add_node(node(NodeType::FPGAComparator {
        mode: ComparatorMode::Compare,
        outputs: 0b1111000000000001,
        side: 1,
        back: 1,
    }));
    let hex = other.add_node(node(NodeType::Wire));
    other.add_link(wide, hex, link(LinkType::Default, 14));
    assert!(verilog(&other).contains("\tassign outputs[3:0] = w0[4:1];\n"));
}

#[test]
fn hex_lamp_without_a_comparator_shows_zero() {
    let mut graph = CompileGraph::new();
    let lever = graph.add_node(node(NodeType::Lever));
    let hex = graph.add_node(node(NodeType::Wire));
    let lamp = graph.add_node(node(NodeType::Lamp));
    graph.add_link(lever, hex, link(LinkType::Default, 0));
    graph.add_link(lever, lamp, link(LinkType::Default, 0));
    let text = verilog(&graph);
    assert!(text.contains("\tassign outputs[3:0] = 4'b0000;\n"));
    assert!(text.contains("\tassign outputs[4] = (1'b0|w0);\n"));
}

#[test]
fn comparator_port_takes_levels_of_another_comparator() {
    let mut graph = CompileGraph::new();
    let source = graph.add_node(node(NodeType::FPGAComparator {
        mode: ComparatorMode::Compare,
        outputs: 0b1000000000000001,
        side: 1,
        back: 0b1000000000000001,
    }));
    let lever = graph.add_node(node(NodeType::Lever));
    let comp = graph.add_node(node(NodeType::FPGAComparator {
        mode: ComparatorMode::Subtract,
        outputs: 0b0100000000000001,
        side: 1,
        back: 0b1100000000000001,
    }));
    graph.add_link(source, comp, link(LinkType::Default, 0));
    graph.add_link(lever, comp, link(LinkType::Default, 0));
    let text = verilog(&graph);
    // newest link first; level 15 from the lever, level 14 from the bundle, and each
    // level holds with the one above it because two links feed the port
    assert!(text.contains("\twire[2:0] w2_b = {w1,w2_b[2]|w0[1],1'b1};\n"));
    assert!(text.contains("\twire[0:0] w2_s = {1'b1};\n"));
}
