use redstone_fpga::blocks::ComparatorMode;
use redstone_fpga::graph::{CompileGraph, CompileLink, CompileNode, LinkType, NodeState, NodeType};
use redstone_fpga::options::CompilerOptions;
use redstone_fpga::passes::{
    collect_port, comparator_outputs, keep_mask, link_contribution, subtract_levels,
    DiscreteComparators,
};

fn node(ty: NodeType) -> CompileNode {
    CompileNode {
        ty,
        block: None,
        state: NodeState { powered: false, repeater_locked: false, output_strength: 0 },
    }
}

fn comparator(mode: ComparatorMode) -> NodeType {
    NodeType::Comparator { mode, far_input: None, facing_diode: false, states: None }
}

fn link(ty: LinkType, ss: u8) -> CompileLink {
    CompileLink { ty, ss }
}

fn masks(graph: &CompileGraph, id: u32) -> (ComparatorMode, u16, u16, u16) {
    match graph.node(id).unwrap().ty {
        NodeType::FPGAComparator { mode, outputs, side, back } => (mode, outputs, side, back),
        other => panic!("node {} is {:?}", id, other),
    }
}

#[test]
fn subtract_comparator_with_two_levers() {
    let mut graph = CompileGraph::new();
    let back = graph.add_node(node(NodeType::Lever));
    let side = graph.add_node(node(NodeType::Lever));
    let comp = graph.add_node(node(comparator(ComparatorMode::Subtract)));
    graph.add_link(back, comp, link(LinkType::Default, 0));
    graph.add_link(side, comp, link(LinkType::Side, 0));
    DiscreteComparators.run_pass(&mut graph);
    let (mode, outputs, side_mask, back_mask) = masks(&graph, comp);
    assert_eq!(mode, ComparatorMode::Subtract);
    assert_eq!(back_mask, 0b1000000000000001);
    assert_eq!(side_mask, 0b1000000000000001);
    assert_eq!(outputs, 0b1000000000000001);
}

#[test]
fn compare_comparator_with_attenuated_back() {
    let mut graph = CompileGraph::new();
    let chain = graph.add_node(node(NodeType::Repeater { delay: 1, facing_diode: false }));
    let side = graph.add_node(node(NodeType::Lever));
    let comp = graph.add_node(node(comparator(ComparatorMode::Compare)));
    graph.add_link(chain, comp, link(LinkType::Default, 4));
    graph.add_link(side, comp, link(LinkType::Side, 0));
    DiscreteComparators.run_pass(&mut graph);
    let (_, outputs, side_mask, back_mask) = masks(&graph, comp);
    assert_eq!(back_mask, 0b0000100000000001);
    assert_eq!(side_mask, 0b1000000000000001);
    assert_eq!(outputs, 0b0000000000000001);
}

#[test]
fn pass_leaves_no_analog_comparator_and_keeps_the_rest() {
    let mut graph = CompileGraph::new();
    let lever = graph.add_node(node(NodeType::Lever));
    let first = graph.add_node(node(comparator(ComparatorMode::Compare)));
    let second = graph.add_node(node(comparator(ComparatorMode::Subtract)));
    let lamp = graph.add_node(node(NodeType::Lamp));
    graph.add_link(lever, first, link(LinkType::Default, 2));
    graph.add_link(first, second, link(LinkType::Default, 1));
    graph.add_link(second, lamp, link(LinkType::Default, 0));
    DiscreteComparators.run_pass(&mut graph);
    assert_eq!(graph.node_count(), 4);
    assert_eq!(graph.node(lever).unwrap().ty, NodeType::Lever);
    assert_eq!(graph.node(lamp).unwrap().ty, NodeType::Lamp);
    let (_, first_out, _, first_back) = masks(&graph, first);
    assert_eq!(first_back, 0b0010000000000001);
    assert_eq!(first_out, 0b0010000000000001);
    let (_, second_out, second_side, second_back) = masks(&graph, second);
    // level 13 of the first comparator arrives as level 11, its anchor is lost
    assert_eq!(second_back, 0b0000100000000001);
    assert_eq!(second_side, 0b0000000000000001);
    assert_eq!(second_out, 0b0000100000000001);
    assert_eq!(graph.links_into(second), vec![(first, link(LinkType::Default, 1))]);
    assert_eq!(graph.links_out_of(second), vec![(lamp, link(LinkType::Default, 0))]);
}

#[test]
fn pass_is_idempotent() {
    let mut graph = CompileGraph::new();
    let lever = graph.add_node(node(NodeType::Lever));
    let comp = graph.add_node(node(comparator(ComparatorMode::Compare)));
    graph.add_link(lever, comp, link(LinkType::Default, 3));
    DiscreteComparators.run_pass(&mut graph);
    let once = masks(&graph, comp);
    DiscreteComparators.run_pass(&mut graph);
    assert_eq!(masks(&graph, comp), once);
}

#[test]
fn outputs_always_hold_the_anchor() {
    for &(back, side) in &[(0u16, 0u16), (0xFFFE, 0xFFFF), (0x8000, 0x0001), (0x0001, 0x8001), (0x1234, 0x0F0F)] {
        assert_eq!(comparator_outputs(ComparatorMode::Compare, back, side) & 0x1, 1);
        assert_eq!(comparator_outputs(ComparatorMode::Subtract, back, side) & 0x1, 1);
    }
}

#[test]
fn anchor_only_back_gives_anchor_only_outputs() {
    for &side in &[0x0001u16, 0x8001, 0xFFFF, 0x0101] {
        assert_eq!(comparator_outputs(ComparatorMode::Compare, 0b0000000000000001, side), 0b0000000000000001);
        assert_eq!(comparator_outputs(ComparatorMode::Subtract, 0b0000000000000001, side), 0b0000000000000001);
    }
}

#[test]
fn saturated_loss_adds_no_level() {
    let discrete = NodeType::FPGAComparator { mode: ComparatorMode::Compare, outputs: 0xFFFF, side: 1, back: 1 };
    assert_eq!(link_contribution(&discrete, 15), 0);
    let analog = NodeType::Comparator { mode: ComparatorMode::Compare, far_input: None, facing_diode: false, states: Some(0xFFFF) };
    assert_eq!(link_contribution(&analog, 15), 0);
    // a plain source at full loss reaches the anchor level only
    assert_eq!(link_contribution(&NodeType::Lever, 15), 0b1);
    assert_eq!(link_contribution(&NodeType::Lever, 16), 0);
}

#[test]
fn contributions_by_source_kind() {
    assert_eq!(link_contribution(&NodeType::Torch, 0), 0x8000);
    assert_eq!(link_contribution(&NodeType::Button, 4), 0x0800);
    assert_eq!(link_contribution(&NodeType::Constant, 14), 0x0002);
    assert_eq!(link_contribution(&NodeType::Lamp, 0), 0);
    let discrete = NodeType::FPGAComparator { mode: ComparatorMode::Compare, outputs: 0x8001, side: 1, back: 1 };
    assert_eq!(link_contribution(&discrete, 0), 0x4000);
    assert_eq!(link_contribution(&discrete, 14), 0x0001);
    let unknown = NodeType::Comparator { mode: ComparatorMode::Compare, far_input: None, facing_diode: false, states: None };
    assert_eq!(link_contribution(&unknown, 0), 0);
}

#[test]
fn constant_on_the_default_port_clears_the_anchor() {
    let mut graph = CompileGraph::new();
    let constant = graph.add_node(node(NodeType::Constant));
    let comp = graph.add_node(node(comparator(ComparatorMode::Compare)));
    graph.add_link(constant, comp, link(LinkType::Default, 2));
    graph.add_link(constant, comp, link(LinkType::Side, 2));
    let links = graph.links_into(comp);
    assert_eq!(collect_port(&graph, &links, LinkType::Default), 0b0010000000000000);
    assert_eq!(collect_port(&graph, &links, LinkType::Side), 0b0010000000000001);
    DiscreteComparators.run_pass(&mut graph);
    let (_, outputs, _, _) = masks(&graph, comp);
    assert_eq!(outputs, 0b0010000000000001);
}

#[test]
fn keep_mask_and_subtract_levels_values() {
    assert_eq!(keep_mask(0x0001), 0xFFFF);
    assert_eq!(keep_mask(0x0000), 0xFFFF);
    assert_eq!(keep_mask(0x0011), 0xFFF0);
    assert_eq!(keep_mask(0x8001), 0x8000);
    assert_eq!(subtract_levels(0x8001, 0x8001), 0x8001);
    assert_eq!(subtract_levels(0x00F0, 0x0005), 0x00F0 | 0x003C);
    assert_eq!(subtract_levels(0x00F0, 0), 0);
}

#[test]
fn pass_runs_for_the_hardware_backend_only() {
    let pass = DiscreteComparators;
    assert!(pass.should_run(&CompilerOptions::fpga()));
    assert!(!pass.should_run(&CompilerOptions::default()));
    assert_eq!(pass.status_message(), "Optimizing Comparators for FPGA");
}
