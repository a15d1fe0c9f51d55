//! The comparator discretization pass: every analog comparator becomes a bundle of
//! boolean wires, one for each signal level it can ever put out.

use vstd::prelude::*;
use crate::bits::{bit, test_bit};
use crate::blocks::ComparatorMode;
use crate::graph::{CompileGraph, CompileLink, CompileNode, LinkType, NodeType};
use crate::options::{BackendVariant, CompilerOptions};

verus! {

/// The mask that holds the anchor level alone.
pub const ANCHOR: u16 = 1;

/// Whether a node delivers one bit of full strength.
pub open spec fn is_binary_source(ty: NodeType) -> bool {
    ty is Torch || ty is Repeater || ty is Button || ty is Lever || ty is PressurePlate
        || ty is Constant
}

/// The levels a comparator can put out, as far as they are known.
pub open spec fn level_set(ty: NodeType) -> Option<u16> {
    match ty {
        NodeType::FPGAComparator { outputs, .. } => Some(outputs),
        NodeType::Comparator { states, .. } => states,
        _ => None,
    }
}

/// A level set after a link that loses `ss`: level `l` arrives as `l - ss - 1`, and
/// levels that would fall below 0 are lost.
pub open spec fn attenuate(levels: u16, ss: u8) -> u16 {
    if ss >= 15 {
        0
    } else {
        levels >> ((ss + 1) as u16)
    }
}

/// The levels that a source adds to a port over a link that loses `ss`.
pub open spec fn contribution(source: NodeType, ss: u8) -> u16 {
    if is_binary_source(source) {
        if ss <= 15 {
            1u16 << ((15 - ss) as u16)
        } else {
            0
        }
    } else {
        match level_set(source) {
            Some(levels) => attenuate(levels, ss),
            None => 0,
        }
    }
}

/// The mask of a port after one more link. A link to the other port changes nothing. A
/// constant on the default port also clears the anchor.
pub open spec fn feed(mask: u16, port: LinkType, source: NodeType, link: CompileLink) -> u16 {
    if link.ty != port {
        mask
    } else if port == LinkType::Default && source is Constant {
        (mask | contribution(source, link.ss)) & 0xFFFE
    } else {
        mask | contribution(source, link.ss)
    }
}

/// The mask of a port after the first `n` links into a node: the anchor, and what each
/// link feeds in turn. A link whose source is no node of the graph feeds nothing.
pub open spec fn port_mask(
    nodes: Seq<CompileNode>,
    links: Seq<(u32, CompileLink)>,
    port: LinkType,
    n: nat,
) -> u16
    decreases n,
{
    if n == 0 || n > links.len() {
        ANCHOR
    } else {
        let before = port_mask(nodes, links, port, (n - 1) as nat);
        let (source, link) = links[n - 1];
        if source < nodes.len() {
            feed(before, port, nodes[source as int].ty, link)
        } else {
            before
        }
    }
}

/// The mask that keeps every level from the largest of the lowest `h + 1` levels of
/// `side` upwards; where `side` has none above level 0, every level is kept.
pub open spec fn keep_from(side: u16, h: nat) -> u16
    decreases h,
{
    if h == 0 || h > 15 {
        0xFFFF
    } else if bit(side, h) {
        0xFFFFu16 << (h as u16)
    } else {
        keep_from(side, (h - 1) as nat)
    }
}

/// Compare mode: the back levels that are not below the largest side level, and the anchor.
pub open spec fn compare_outputs(back: u16, side: u16) -> u16 {
    (back & keep_from(side, 15)) | ANCHOR
}

/// The back levels lowered by each of the side levels below `n`.
pub open spec fn subtract_below(back: u16, side: u16, n: nat) -> u16
    decreases n,
{
    if n == 0 || n > 16 {
        0
    } else {
        let before = subtract_below(back, side, (n - 1) as nat);
        if bit(side, (n - 1) as nat) {
            before | (back >> ((n - 1) as u16))
        } else {
            before
        }
    }
}

/// Subtract mode: the back levels lowered by each side level, and the anchor.
pub open spec fn subtract_outputs(back: u16, side: u16) -> u16 {
    subtract_below(back, side, 16) | ANCHOR
}

/// The output levels of a comparator with the given port masks.
pub open spec fn outputs_of(mode: ComparatorMode, back: u16, side: u16) -> u16 {
    match mode {
        ComparatorMode::Compare => compare_outputs(back, side),
        ComparatorMode::Subtract => subtract_outputs(back, side),
    }
}

/// The kind a node has after the pass, given the masks of its two ports.
pub open spec fn discretized(ty: NodeType, back: u16, side: u16) -> NodeType {
    match ty {
        NodeType::Comparator { mode, .. } => NodeType::FPGAComparator {
            mode,
            outputs: outputs_of(mode, back, side),
            side,
            back,
        },
        _ => ty,
    }
}

/// The nodes after node `i` was visited: a comparator is replaced, anything else stays.
pub open spec fn visit(nodes: Seq<CompileNode>, links: Seq<(u32, CompileLink)>, i: int) -> Seq<
    CompileNode,
> {
    if 0 <= i < nodes.len() && nodes[i].ty is Comparator {
        let back = port_mask(nodes, links, LinkType::Default, links.len());
        let side = port_mask(nodes, links, LinkType::Side, links.len());
        nodes.update(i, CompileNode { ty: discretized(nodes[i].ty, back, side), ..nodes[i] })
    } else {
        nodes
    }
}

/// The nodes after the first `n` nodes were visited in the order of their indices.
pub open spec fn visited(graph: CompileGraph, n: nat) -> Seq<CompileNode>
    decreases n,
{
    if n == 0 {
        graph.nodes()
    } else {
        visit(visited(graph, (n - 1) as nat), graph.incoming(n - 1), n - 1)
    }
}

/// Every output set holds the anchor.
pub proof fn lemma_outputs_hold_anchor(mode: ComparatorMode, back: u16, side: u16)
    ensures
        outputs_of(mode, back, side) & 0x1 == 1,
{
    let c = back & keep_from(side, 15);
    let s = subtract_below(back, side, 16);
    assert((c | 1u16) & 0x1 == 1) by (bit_vector);
    assert((s | 1u16) & 0x1 == 1) by (bit_vector);
}

/// A link that loses 15 adds no level beyond the anchor, whatever its source.
pub proof fn lemma_saturated_loss(source: NodeType, mask: u16)
    requires
        mask & 0x1 == 1,
    ensures
        level_set(source) is Some ==> contribution(source, 15) == 0,
        mask | contribution(source, 15) == mask,
{
    assert(1u16 << 0u16 == 1u16) by (bit_vector);
    assert(mask | 0u16 == mask) by (bit_vector);
    assert(mask | 1u16 == mask) by (bit_vector)
        requires
            mask & 0x1 == 1,
    ;
}

proof fn lemma_subtract_anchor_only(side: u16, n: nat)
    requires
        n <= 16,
    ensures
        subtract_below(1, side, n) == 0 || subtract_below(1, side, n) == 1,
    decreases n,
{
    if n > 0 {
        lemma_subtract_anchor_only(side, (n - 1) as nat);
        let before = subtract_below(1, side, (n - 1) as nat);
        let i = (n - 1) as u16;
        assert(before | (1u16 >> i) == 0 || before | (1u16 >> i) == 1) by (bit_vector)
            requires
                before == 0 || before == 1,
        ;
    }
}

/// A back port that holds the anchor alone gives the anchor alone, in both modes.
pub proof fn lemma_anchor_only(mode: ComparatorMode, side: u16)
    ensures
        outputs_of(mode, 0b0000000000000001, side) == 0b0000000000000001,
{
    let k = keep_from(side, 15);
    assert((1u16 & k) | 1u16 == 1u16) by (bit_vector);
    lemma_subtract_anchor_only(side, 16);
    assert(0u16 | 1u16 == 1u16) by (bit_vector);
    assert(1u16 | 1u16 == 1u16) by (bit_vector);
}

/// Visiting a graph without analog comparators changes nothing.
pub proof fn lemma_visited_without_comparators(graph: CompileGraph, n: nat)
    requires
        forall|i: int| 0 <= i < graph.nodes().len() ==> !(#[trigger] graph.nodes()[i].ty is Comparator),
    ensures
        visited(graph, n) == graph.nodes(),
    decreases n,
{
    if n > 0 {
        lemma_visited_without_comparators(graph, (n - 1) as nat);
    }
}

/// What visiting keeps: the number of nodes, every node from `n` on, every node that is
/// no analog comparator, and block and state of all. What it changes: every analog
/// comparator below `n` has become a discrete one whose outputs hold the anchor.
pub proof fn lemma_visited_shape(graph: CompileGraph, n: nat)
    requires
        n <= graph.nodes().len(),
    ensures
        visited(graph, n).len() == graph.nodes().len(),
        forall|i: int|
            n <= i < graph.nodes().len() ==> #[trigger] visited(graph, n)[i] == graph.nodes()[i],
        forall|i: int|
            0 <= i < graph.nodes().len() && !(graph.nodes()[i].ty is Comparator)
                ==> #[trigger] visited(graph, n)[i] == graph.nodes()[i],
        forall|i: int|
            0 <= i < graph.nodes().len() ==> (#[trigger] visited(graph, n)[i]).block
                == graph.nodes()[i].block && visited(graph, n)[i].state == graph.nodes()[i].state,
        forall|i: int|
            0 <= i < n && graph.nodes()[i].ty is Comparator ==> ((#[trigger] visited(
                graph,
                n,
            )[i]).ty matches NodeType::FPGAComparator { mode, outputs, .. } && outputs & 0x1 == 1
                && mode == graph.nodes()[i].ty->Comparator_mode),
    decreases n,
{
    if n > 0 {
        lemma_visited_shape(graph, (n - 1) as nat);
        let before = visited(graph, (n - 1) as nat);
        let links = graph.incoming(n - 1);
        let after = visited(graph, n);
        assert(after == visit(before, links, n - 1));
        if before[n - 1].ty is Comparator {
            let back = port_mask(before, links, LinkType::Default, links.len());
            let side = port_mask(before, links, LinkType::Side, links.len());
            let mode = before[n - 1].ty->Comparator_mode;
            lemma_outputs_hold_anchor(mode, back, side);
        }
    }
}

/// Whether a node delivers one bit of full strength.
fn binary_source(ty: &NodeType) -> (b: bool)
    ensures
        b == is_binary_source(*ty),
{
    match ty {
        NodeType::Torch
        | NodeType::Repeater { .. }
        | NodeType::Button
        | NodeType::Lever
        | NodeType::PressurePlate
        | NodeType::Constant => true,
        _ => false,
    }
}

/// The levels a comparator can put out, as far as they are known.
pub fn levels_of(ty: &NodeType) -> (levels: Option<u16>)
    ensures
        levels == level_set(*ty),
{
    match ty {
        NodeType::FPGAComparator { outputs, .. } => Some(*outputs),
        NodeType::Comparator { states, .. } => *states,
        _ => None,
    }
}

/// The levels that a source adds to a port over a link that loses `ss`.
pub fn link_contribution(source: &NodeType, ss: u8) -> (levels: u16)
    ensures
        levels == contribution(*source, ss),
{
    if binary_source(source) {
        if ss <= 15 {
            1u16 << ((15 - ss) as u16)
        } else {
            0
        }
    } else {
        match levels_of(source) {
            Some(levels) => {
                if ss >= 15 {
                    0
                } else {
                    levels >> ((ss + 1) as u16)
                }
            },
            None => 0,
        }
    }
}

fn same_port(a: LinkType, b: LinkType) -> (same: bool)
    ensures
        same == (a == b),
{
    match (a, b) {
        (LinkType::Default, LinkType::Default) => true,
        (LinkType::Side, LinkType::Side) => true,
        _ => false,
    }
}

/// The mask of one port of node `i`: the anchor, and what each link into the node feeds.
pub fn collect_port(graph: &CompileGraph, links: &Vec<(u32, CompileLink)>, port: LinkType) -> (mask: u16)
    requires
        graph.wf(),
    ensures
        mask == port_mask(graph.nodes(), links@, port, links@.len()),
{
    let mut mask: u16 = ANCHOR;
    let mut k: usize = 0;
    while k < links.len()
        invariant
            graph.wf(),
            k <= links.len(),
            mask == port_mask(graph.nodes(), links@, port, k as nat),
        decreases links.len() - k,
    {
        let (source, link) = links[k];
        if same_port(link.ty, port) {
            match graph.node(source) {
                Some(node) => {
                    mask = mask | link_contribution(&node.ty, link.ss);
                    let constant = match node.ty {
                        NodeType::Constant => true,
                        _ => false,
                    };
                    if constant && same_port(port, LinkType::Default) {
                        mask = mask & 0xFFFE;
                    }
                },
                None => {},
            }
        }
        k += 1;
    }
    mask
}

/// The mask that keeps every level from the largest side level upwards.
pub fn keep_mask(side: u16) -> (mask: u16)
    ensures
        mask == keep_from(side, 15),
{
    let mut h: u8 = 15;
    while h > 0
        invariant
            h <= 15,
            keep_from(side, 15) == keep_from(side, h as nat),
        decreases h,
    {
        if test_bit(side, h) {
            return 0xFFFFu16 << (h as u16);
        }
        h -= 1;
    }
    0xFFFF
}

/// The back levels lowered by each side level.
pub fn subtract_levels(back: u16, side: u16) -> (levels: u16)
    ensures
        levels == subtract_below(back, side, 16),
{
    let mut levels: u16 = 0;
    let mut i: u8 = 0;
    while i < 16
        invariant
            i <= 16,
            levels == subtract_below(back, side, i as nat),
        decreases 16 - i,
    {
        if test_bit(side, i) {
            levels = levels | (back >> (i as u16));
        }
        i += 1;
    }
    levels
}

/// The output levels of a comparator with the given port masks. They always hold the anchor.
pub fn comparator_outputs(mode: ComparatorMode, back: u16, side: u16) -> (outputs: u16)
    ensures
        outputs == outputs_of(mode, back, side),
        outputs & 0x1 == 1,
{
    proof {
        lemma_outputs_hold_anchor(mode, back, side);
    }
    match mode {
        ComparatorMode::Compare => (back & keep_mask(side)) | ANCHOR,
        ComparatorMode::Subtract => subtract_levels(back, side) | ANCHOR,
    }
}

/// The pass that turns analog comparators into discrete ones.
pub struct DiscreteComparators;

impl DiscreteComparators {
    /// Visits the nodes in the order of their indices and replaces each analog comparator
    /// by a discrete one with the masks of its ports. Links, blocks and states stay, and so
    /// does every node of another kind. Afterwards no analog comparator is left, and the
    /// outputs of each replaced one hold the anchor.
    pub fn run_pass(&self, graph: &mut CompileGraph)
        requires
            old(graph).wf(),
        ensures
            final(graph).wf(),
            final(graph).nodes() == visited(*old(graph), old(graph).nodes().len()),
            final(graph).nodes().len() == old(graph).nodes().len(),
            final(graph).spec_link_count() == old(graph).spec_link_count(),
            forall|j: int| #[trigger] final(graph).incoming(j) == old(graph).incoming(j),
            forall|j: int| #[trigger] final(graph).outgoing(j) == old(graph).outgoing(j),
            forall|i: int|
                0 <= i < old(graph).nodes().len() ==> !(#[trigger] final(graph).nodes()[i].ty is Comparator),
            forall|i: int|
                0 <= i < old(graph).nodes().len() && old(graph).nodes()[i].ty is Comparator ==> ((
                #[trigger] final(graph).nodes()[i]).ty matches NodeType::FPGAComparator {
                    outputs,
                    ..
                } && outputs & 0x1 == 1),
            forall|i: int|
                0 <= i < old(graph).nodes().len() && !(old(graph).nodes()[i].ty is Comparator)
                    ==> #[trigger] final(graph).nodes()[i] == old(graph).nodes()[i],
            forall|i: int|
                0 <= i < old(graph).nodes().len() ==> (#[trigger] final(graph).nodes()[i]).block
                    == old(graph).nodes()[i].block && final(graph).nodes()[i].state == old(
                    graph,
                ).nodes()[i].state,
    {
        let count = graph.node_count();
        let mut i: u32 = 0;
        while i < count
            invariant
                graph.wf(),
                i <= count,
                count == old(graph).nodes().len(),
                graph.nodes() == visited(*old(graph), i as nat),
                graph.spec_link_count() == old(graph).spec_link_count(),
                forall|j: int| #[trigger] graph.incoming(j) == old(graph).incoming(j),
                forall|j: int| #[trigger] graph.outgoing(j) == old(graph).outgoing(j),
            decreases count - i,
        {
            proof {
                lemma_visited_shape(*old(graph), i as nat);
            }
            let found = graph.node(i);
            match found {
                Some(node) => {
                    match node.ty {
                        NodeType::Comparator { mode, .. } => {
                            let links = graph.links_into(i);
                            let back = collect_port(graph, &links, LinkType::Default);
                            let side = collect_port(graph, &links, LinkType::Side);
                            let outputs = comparator_outputs(mode, back, side);
                            graph.set_node_type(
                                i,
                                NodeType::FPGAComparator { mode, outputs, side, back },
                            );
                        },
                        _ => {},
                    }
                },
                None => {},
            }
            i += 1;
        }
        proof {
            lemma_visited_shape(*old(graph), count as nat);
            assert forall|i: int| 0 <= i < old(graph).nodes().len() implies !(
            #[trigger] graph.nodes()[i].ty is Comparator) by {
                if !(old(graph).nodes()[i].ty is Comparator) {
                    assert(visited(*old(graph), count as nat)[i] == old(graph).nodes()[i]);
                }
            }
        }
    }

    pub fn status_message(&self) -> (message: &'static str)
        ensures
            message@ == "Optimizing Comparators for FPGA"@,
    {
        "Optimizing Comparators for FPGA"
    }

    /// The pass runs only when the target is the hardware backend.
    pub fn should_run(&self, options: &CompilerOptions) -> (run: bool)
        ensures
            run == (options.backend_variant == BackendVariant::FPGA),
    {
        match options.backend_variant {
            BackendVariant::FPGA => true,
            BackendVariant::Direct => false,
        }
    }
}

} // verus!
