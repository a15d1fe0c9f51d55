//! The assembler: one hardware module, `RoC`, written out from a compile graph.

use vstd::prelude::*;
use crate::bits::{bit, count_below, popcount_below, test_bit};
use crate::blocks::ComparatorMode;
use crate::graph::{CompileGraph, CompileLink, CompileNode, LinkType, NodeType};
use crate::passes::{level_set, levels_of};
use crate::text::{
    digits, lemma_append, lemma_append_nothing, push_decimal, push_signed, push_text, signed_digits,
    text,
};

verus! {

/// The levels of a bundle that a reader still sees over a link that loses `ss`.
pub open spec fn reach_mask(ss: u8) -> u16 {
    if ss >= 15 {
        0
    } else {
        0xFFFFu16 >> ((ss + 1) as u16)
    }
}

/// The wire of a comparator's bundle that a reader takes over a link that loses `ss`:
/// as many wires lie below it as the bundle has levels that the link lets through.
pub open spec fn link_index(states: u16, ss: u8) -> nat {
    popcount_below(states & reach_mask(ss), 16)
}

/// The wire of a comparator's bundle that a reader takes over a link that loses `ss`.
pub fn ss_to_idx(states: u16, ss: u8) -> (idx: u8)
    ensures
        idx == link_index(states, ss),
        idx <= 16,
{
    let mask: u16 = if ss >= 15 {
        0
    } else {
        0xFFFFu16 >> ((ss + 1) as u16)
    };
    count_below(states & mask, 16)
}

/// The wire is one of the bundle exactly where the comparator has a level that the link
/// does not let through; it is never beyond the first wire past the bundle.
pub proof fn lemma_link_index(states: u16, ss: u8)
    ensures
        link_index(states, ss) <= popcount_below(states, 16),
        (states & !reach_mask(ss) != 0) <==> link_index(states, ss) < popcount_below(states, 16),
{
    let m = reach_mask(ss);
    crate::bits::lemma_popcount_subset(states, m, 16);
    if states & !m != 0 {
        let k = lemma_some_level(states, m);
        crate::bits::lemma_popcount_strict(states, m, k, 16);
    } else {
        assert forall|k: nat| k < 16 && crate::bits::bit(states, k) implies crate::bits::bit(
            states & m,
            k,
        ) by {
            let i = k as u16;
            assert(((states & m) >> i) & 1 == 1) by (bit_vector)
                requires
                    states & !m == 0,
                    (states >> i) & 1 == 1,
                    i < 16,
            ;
        }
        crate::bits::lemma_popcount_same(states, m, 16);
    }
}

proof fn lemma_some_level(a: u16, m: u16) -> (k: nat)
    requires
        a & !m != 0,
    ensures
        k < 16,
        crate::bits::bit(a, k),
        !crate::bits::bit(a & m, k),
{
    assert(((a >> 0u16) & 1 == 1 && ((a & m) >> 0u16) & 1 != 1) || ((a >> 1u16) & 1 == 1 && ((a & m) >> 1u16) & 1 != 1) || ((a >> 2u16) & 1 == 1 && ((a & m) >> 2u16) & 1 != 1) || ((a >> 3u16) & 1 == 1 && ((a & m) >> 3u16) & 1 != 1) || ((a >> 4u16) & 1 == 1 && ((a & m) >> 4u16) & 1 != 1) || ((a >> 5u16) & 1 == 1 && ((a & m) >> 5u16) & 1 != 1) || ((a >> 6u16) & 1 == 1 && ((a & m) >> 6u16) & 1 != 1) || ((a >> 7u16) & 1 == 1 && ((a & m) >> 7u16) & 1 != 1) || ((a >> 8u16) & 1 == 1 && ((a & m) >> 8u16) & 1 != 1) || ((a >> 9u16) & 1 == 1 && ((a & m) >> 9u16) & 1 != 1) || ((a >> 10u16) & 1 == 1 && ((a & m) >> 10u16) & 1 != 1) || ((a >> 11u16) & 1 == 1 && ((a & m) >> 11u16) & 1 != 1) || ((a >> 12u16) & 1 == 1 && ((a & m) >> 12u16) & 1 != 1) || ((a >> 13u16) & 1 == 1 && ((a & m) >> 13u16) & 1 != 1) || ((a >> 14u16) & 1 == 1 && ((a & m) >> 14u16) & 1 != 1) || ((a >> 15u16) & 1 == 1 && ((a & m) >> 15u16) & 1 != 1)) by (bit_vector)
        requires
            a & !m != 0,
    ;
    if ((a >> 0u16) & 1 == 1 && ((a & m) >> 0u16) & 1 != 1) {
        0
    } else if ((a >> 1u16) & 1 == 1 && ((a & m) >> 1u16) & 1 != 1) {
        1
    } else if ((a >> 2u16) & 1 == 1 && ((a & m) >> 2u16) & 1 != 1) {
        2
    } else if ((a >> 3u16) & 1 == 1 && ((a & m) >> 3u16) & 1 != 1) {
        3
    } else if ((a >> 4u16) & 1 == 1 && ((a & m) >> 4u16) & 1 != 1) {
        4
    } else if ((a >> 5u16) & 1 == 1 && ((a & m) >> 5u16) & 1 != 1) {
        5
    } else if ((a >> 6u16) & 1 == 1 && ((a & m) >> 6u16) & 1 != 1) {
        6
    } else if ((a >> 7u16) & 1 == 1 && ((a & m) >> 7u16) & 1 != 1) {
        7
    } else if ((a >> 8u16) & 1 == 1 && ((a & m) >> 8u16) & 1 != 1) {
        8
    } else if ((a >> 9u16) & 1 == 1 && ((a & m) >> 9u16) & 1 != 1) {
        9
    } else if ((a >> 10u16) & 1 == 1 && ((a & m) >> 10u16) & 1 != 1) {
        10
    } else if ((a >> 11u16) & 1 == 1 && ((a & m) >> 11u16) & 1 != 1) {
        11
    } else if ((a >> 12u16) & 1 == 1 && ((a & m) >> 12u16) & 1 != 1) {
        12
    } else if ((a >> 13u16) & 1 == 1 && ((a & m) >> 13u16) & 1 != 1) {
        13
    } else if ((a >> 14u16) & 1 == 1 && ((a & m) >> 14u16) & 1 != 1) {
        14
    } else {
        15
    }
}

/// The name of the wire of node `id`.
pub open spec fn wire_name(id: nat) -> Seq<u8> {
    text("w") + digits(id)
}

/// One wire of the bundle of node `id`.
pub open spec fn wire_bit(id: nat, index: nat) -> Seq<u8> {
    wire_name(id) + text("[") + digits(index) + text("]")
}

fn push_wire(out: &mut Vec<u8>, id: u32)
    ensures
        final(out)@ == old(out)@ + wire_name(id as nat),
{
    push_text(out, "w");
    push_decimal(out, id as u64);
    assert(out@ =~= old(out)@ + wire_name(id as nat));
}

fn push_wire_bit(out: &mut Vec<u8>, id: u32, index: u64)
    ensures
        final(out)@ == old(out)@ + wire_bit(id as nat, index as nat),
{
    push_wire(out, id);
    push_text(out, "[");
    push_decimal(out, index);
    push_text(out, "]");
    assert(out@ =~= old(out)@ + wire_bit(id as nat, index as nat));
}

/// Whether a node drives one plain wire that readers take as it is.
pub open spec fn drives_wire(ty: NodeType) -> bool {
    ty is Repeater || ty is Button || ty is Lever || ty is Torch || ty is PressurePlate
}

fn has_wire(ty: &NodeType) -> (b: bool)
    ensures
        b == drives_wire(*ty),
{
    match ty {
        NodeType::Repeater { .. }
        | NodeType::Button
        | NodeType::Lever
        | NodeType::Torch
        | NodeType::PressurePlate => true,
        _ => false,
    }
}

fn is_port(link: &CompileLink, port: LinkType) -> (same: bool)
    ensures
        same == (link.ty == port),
{
    match (link.ty, port) {
        (LinkType::Default, LinkType::Default) => true,
        (LinkType::Side, LinkType::Side) => true,
        _ => false,
    }
}

/// The width of the bundle of a comparator: one wire for each of its levels.
pub open spec fn bundle_width(states: u16) -> nat {
    popcount_below(states, 16)
}

/// What a reader takes from a comparator over a link that loses `ss`: the wire that the
/// link selects, and a constant 0 where that wire is none of the bundle.
pub open spec fn bundle_term(id: nat, states: u16, ss: u8) -> Seq<u8> {
    if link_index(states, ss) < bundle_width(states) {
        wire_bit(id, link_index(states, ss))
    } else {
        text("1'b0")
    }
}

/// What a one-bit reader takes from the source of a link: the wire of a plain source, the
/// wire of a comparator's bundle that the link selects, a constant 1 from a constant that
/// outlasts the loss of the link, and nothing from anything else.
pub open spec fn input_term(source: CompileNode, id: nat, ss: u8) -> Option<Seq<u8>> {
    if drives_wire(source.ty) {
        Some(wire_name(id))
    } else if level_set(source.ty) is Some {
        Some(bundle_term(id, level_set(source.ty)->0, ss))
    } else if source.ty is Constant && source.state.output_strength > ss {
        Some(text("1'b1"))
    } else {
        None
    }
}

/// The disjunction that feeds one port of a node, after the first `n` links into it: a
/// constant 0, and a term for each link to that port that delivers one.
pub open spec fn inputs_text(
    nodes: Seq<CompileNode>,
    links: Seq<(u32, CompileLink)>,
    port: LinkType,
    n: nat,
) -> Seq<u8>
    decreases n,
{
    if n == 0 || n > links.len() {
        text("1'b0")
    } else {
        let before = inputs_text(nodes, links, port, (n - 1) as nat);
        let (source, link) = links[n - 1];
        if link.ty == port && source < nodes.len() {
            match input_term(nodes[source as int], source as nat, link.ss) {
                Some(term) => before + text("|") + term,
                None => before,
            }
        } else {
            before
        }
    }
}

fn push_inputs(out: &mut Vec<u8>, graph: &CompileGraph, links: &Vec<(u32, CompileLink)>, port: LinkType)
    requires
        graph.wf(),
    ensures
        final(out)@ == old(out)@ + inputs_text(graph.nodes(), links@, port, links@.len()),
{
    push_text(out, "1'b0");
    let mut k: usize = 0;
    while k < links.len()
        invariant
            graph.wf(),
            k <= links.len(),
            out@ == old(out)@ + inputs_text(graph.nodes(), links@, port, k as nat),
        decreases links.len() - k,
    {
        let ghost before = out@;
        let (source, link) = links[k];
        if is_port(&link, port) {
            match graph.node(source) {
                Some(node) => {
                    if has_wire(&node.ty) {
                        push_text(out, "|");
                        push_wire(out, source);
                    } else {
                        match levels_of(&node.ty) {
                            Some(levels) => {
                                push_text(out, "|");
                                let index = ss_to_idx(levels, link.ss);
                                if index < count_below(levels, 16) {
                                    push_wire_bit(out, source, index as u64);
                                } else {
                                    push_text(out, "1'b0");
                                }
                            },
                            None => {
                                let constant = match node.ty {
                                    NodeType::Constant => true,
                                    _ => false,
                                };
                                if constant && node.state.output_strength > link.ss {
                                    push_text(out, "|");
                                    push_text(out, "1'b1");
                                }
                            },
                        }
                    }
                },
                None => {},
            }
        }
        k += 1;
        assert(out@ =~= old(out)@ + inputs_text(graph.nodes(), links@, port, k as nat));
    }
}

/// Whether one of the first `n` links into a node goes to its side port.
pub open spec fn locking_within(links: Seq<(u32, CompileLink)>, n: nat) -> bool
    decreases n,
{
    if n == 0 || n > links.len() {
        false
    } else {
        links[n - 1].1.ty == LinkType::Side || locking_within(links, (n - 1) as nat)
    }
}

/// Whether one of the first `n` links out of a node goes to the side port of a repeater.
pub open spec fn locker_within(nodes: Seq<CompileNode>, links: Seq<(u32, CompileLink)>, n: nat) -> bool
    decreases n,
{
    if n == 0 || n > links.len() {
        false
    } else {
        (links[n - 1].1.ty == LinkType::Side && links[n - 1].0 < nodes.len()
            && nodes[links[n - 1].0 as int].ty is Repeater) || locker_within(
            nodes,
            links,
            (n - 1) as nat,
        )
    }
}

/// A node can be locked exactly where some link enters its side port.
pub proof fn lemma_locking(links: Seq<(u32, CompileLink)>, n: nat)
    requires
        n <= links.len(),
    ensures
        locking_within(links, n) <==> exists|k: int|
            0 <= k < n && (#[trigger] links[k]).1.ty == LinkType::Side,
    decreases n,
{
    if n > 0 {
        lemma_locking(links, (n - 1) as nat);
        if locking_within(links, n) {
            if links[n - 1].1.ty == LinkType::Side {
            } else {
                let k = choose|k: int| 0 <= k < n - 1 && (#[trigger] links[k]).1.ty == LinkType::Side;
                assert(0 <= k < n && links[k].1.ty == LinkType::Side);
            }
        }
    }
}

/// A node locks another exactly where one of its links enters the side port of a repeater.
pub proof fn lemma_locker(nodes: Seq<CompileNode>, links: Seq<(u32, CompileLink)>, n: nat)
    requires
        n <= links.len(),
    ensures
        locker_within(nodes, links, n) <==> exists|k: int|
            0 <= k < n && (#[trigger] links[k]).1.ty == LinkType::Side && links[k].0 < nodes.len()
                && nodes[links[k].0 as int].ty is Repeater,
    decreases n,
{
    if n > 0 {
        lemma_locker(nodes, links, (n - 1) as nat);
        if locker_within(nodes, links, n) {
            if links[n - 1].1.ty == LinkType::Side && links[n - 1].0 < nodes.len()
                && nodes[links[n - 1].0 as int].ty is Repeater {
            } else {
                let k = choose|k: int|
                    0 <= k < n - 1 && (#[trigger] links[k]).1.ty == LinkType::Side && links[k].0
                        < nodes.len() && nodes[links[k].0 as int].ty is Repeater;
                assert(0 <= k < n && links[k].1.ty == LinkType::Side);
            }
        }
    }
}

/// Whether some link enters the side port of node `node`.
pub fn is_locking(graph: &CompileGraph, node: u32) -> (locking: bool)
    requires
        graph.wf(),
    ensures
        locking == locking_within(graph.incoming(node as int), graph.incoming(node as int).len()),
{
    let links = graph.links_into(node);
    let mut k: usize = 0;
    let mut found = false;
    while k < links.len()
        invariant
            k <= links.len(),
            found == locking_within(links@, k as nat),
        decreases links.len() - k,
    {
        if is_port(&links[k].1, LinkType::Side) {
            found = true;
        }
        k += 1;
    }
    found
}

/// Whether some link of node `node` enters the side port of a repeater.
pub fn is_locker(graph: &CompileGraph, node: u32) -> (locker: bool)
    requires
        graph.wf(),
    ensures
        locker == locker_within(
            graph.nodes(),
            graph.outgoing(node as int),
            graph.outgoing(node as int).len(),
        ),
{
    let links = graph.links_out_of(node);
    let mut k: usize = 0;
    let mut found = false;
    while k < links.len()
        invariant
            graph.wf(),
            k <= links.len(),
            found == locker_within(graph.nodes(), links@, k as nat),
        decreases links.len() - k,
    {
        if is_port(&links[k].1, LinkType::Side) {
            match graph.node(links[k].0) {
                Some(target) => {
                    match target.ty {
                        NodeType::Repeater { .. } => {
                            found = true;
                        },
                        _ => {},
                    }
                },
                None => {},
            }
        }
        k += 1;
    }
    found
}

/// A flag as the digit 1 or 0.
pub open spec fn flag_text(set: bool) -> Seq<u8> {
    if set {
        text("1")
    } else {
        text("0")
    }
}

fn push_flag(out: &mut Vec<u8>, set: bool)
    ensures
        final(out)@ == old(out)@ + flag_text(set),
{
    if set {
        push_text(out, "1");
    } else {
        push_text(out, "0");
    }
}

/// The comment that names the block of a node; nothing for a node without a block.
pub open spec fn position_text(node: CompileNode) -> Seq<u8> {
    match node.block {
        Some((pos, _)) => text("//block pos ") + signed_digits(pos.x as int) + text(",") + digits(
            pos.y as nat,
        ) + text(",") + signed_digits(pos.z as int) + text("\n"),
        None => Seq::empty(),
    }
}

fn push_position(out: &mut Vec<u8>, node: &CompileNode)
    ensures
        final(out)@ == old(out)@ + position_text(*node),
{
    match node.block {
        Some((pos, _)) => {
            push_text(out, "//block pos ");
            push_signed(out, pos.x);
            push_text(out, ",");
            push_decimal(out, pos.y as u64);
            push_text(out, ",");
            push_signed(out, pos.z);
            push_text(out, "\n");
            assert(out@ =~= old(out)@ + position_text(*node));
        },
        None => {
            assert(out@ =~= old(out)@ + position_text(*node));
        },
    }
}


/// The levels of a mask as distances from full strength, `15 - level`, in rising order,
/// as far as they are below `d`.
pub open spec fn table_upto(mask: u16, d: nat) -> Seq<u8>
    decreases d,
{
    if d == 0 || d > 16 {
        Seq::empty()
    } else {
        let before = table_upto(mask, (d - 1) as nat);
        if bit(mask, (16 - d) as nat) {
            before.push((d - 1) as u8)
        } else {
            before
        }
    }
}

/// The table of a port: the distances of its levels in rising order. The last entry
/// stands for the level that always holds. An empty mask counts as the anchor alone.
pub open spec fn port_table(mask: u16) -> Seq<u8> {
    if table_upto(mask, 16).len() == 0 {
        seq![15u8]
    } else {
        table_upto(mask, 16)
    }
}

/// The table of the outputs: the distances of the levels above the anchor, in rising order.
pub open spec fn output_table(outputs: u16) -> Seq<u8> {
    table_upto(outputs, 15)
}

pub proof fn lemma_table_upto(mask: u16, d: nat)
    requires
        d <= 16,
    ensures
        table_upto(mask, d).len() <= d,
        forall|k: int| 0 <= k < table_upto(mask, d).len() ==> (#[trigger] table_upto(mask, d)[k]) < d,
    decreases d,
{
    if d > 0 {
        lemma_table_upto(mask, (d - 1) as nat);
    }
}

/// The distances below `limit` of the levels of a mask, in rising order.
pub fn distance_table(mask: u16, limit: u8) -> (table: Vec<u8>)
    requires
        limit <= 16,
    ensures
        table@ == table_upto(mask, limit as nat),
        table@.len() <= limit,
        forall|k: int| 0 <= k < table@.len() ==> (#[trigger] table@[k]) < limit,
{
    let mut table: Vec<u8> = Vec::new();
    let mut d: u8 = 0;
    while d < limit
        invariant
            d <= limit <= 16,
            table@ == table_upto(mask, d as nat),
        decreases limit - d,
    {
        if test_bit(mask, 15 - d) {
            table.push(d);
        }
        d += 1;
    }
    proof {
        lemma_table_upto(mask, limit as nat);
    }
    table
}

/// The table of a port.
pub fn port_distances(mask: u16) -> (table: Vec<u8>)
    ensures
        table@ == port_table(mask),
        1 <= table@.len() <= 16,
        forall|k: int| 0 <= k < table@.len() ==> (#[trigger] table@[k]) <= 15,
{
    let mut table = distance_table(mask, 16);
    if table.len() == 0 {
        table.push(15);
    }
    table
}

/// What a comparator port takes at distance `dist` from the source of a link: the wire
/// of a plain source or a constant 1 where the link loses exactly `dist`, and from a
/// comparator the wire of the level that arrives at that distance.
pub open spec fn port_term(source: CompileNode, id: nat, ss: u8, dist: u8) -> Option<Seq<u8>> {
    if drives_wire(source.ty) {
        if ss == dist {
            Some(wire_name(id))
        } else {
            None
        }
    } else if source.ty is Constant {
        if ss == dist {
            Some(text("1'b1"))
        } else {
            None
        }
    } else if level_set(source.ty) is Some && ss < dist <= 15 && bit(
        level_set(source.ty)->0,
        (16 - dist + ss) as nat,
    ) {
        Some(wire_bit(id, popcount_below(level_set(source.ty)->0, (16 - dist + ss) as nat)))
    } else {
        None
    }
}

/// The wire that a comparator port takes for a level of another comparator is a wire of
/// that comparator's bundle.
pub proof fn lemma_level_wire_inside(states: u16, level: nat)
    requires
        bit(states, level),
    ensures
        popcount_below(states, level) < bundle_width(states),
{
    lemma_level_count(states, level, 16);
}

proof fn lemma_level_count(states: u16, level: nat, n: nat)
    requires
        bit(states, level),
        level < n <= 16,
    ensures
        popcount_below(states, level) < popcount_below(states, n),
    decreases n,
{
    if n - 1 > level {
        lemma_level_count(states, level, (n - 1) as nat);
    }
}

/// A disjunction with one more term.
pub open spec fn append_term(before: Seq<u8>, term: Seq<u8>) -> Seq<u8> {
    if before.len() > 0 {
        before + text("|") + term
    } else {
        term
    }
}

/// A disjunction, or a constant 0 where it has no term.
pub open spec fn or_zero(terms: Seq<u8>) -> Seq<u8> {
    if terms.len() == 0 {
        text("1'b0")
    } else {
        terms
    }
}

/// The disjunction of what the first `n` links deliver to a port at distance `dist`,
/// after the terms in `start`.
pub open spec fn port_terms(
    nodes: Seq<CompileNode>,
    links: Seq<(u32, CompileLink)>,
    port: LinkType,
    dist: u8,
    start: Seq<u8>,
    n: nat,
) -> Seq<u8>
    decreases n,
{
    if n == 0 || n > links.len() {
        start
    } else {
        let before = port_terms(nodes, links, port, dist, start, (n - 1) as nat);
        let (source, link) = links[n - 1];
        if link.ty == port && source < nodes.len() {
            match port_term(nodes[source as int], source as nat, link.ss, dist) {
                Some(term) => append_term(before, term),
                None => before,
            }
        } else {
            before
        }
    }
}

/// How many of the first `n` links feed a port from a wire or a bundle.
pub open spec fn feeder_count(
    nodes: Seq<CompileNode>,
    links: Seq<(u32, CompileLink)>,
    port: LinkType,
    n: nat,
) -> nat
    decreases n,
{
    if n == 0 || n > links.len() {
        0
    } else {
        let before = feeder_count(nodes, links, port, (n - 1) as nat);
        let (source, link) = links[n - 1];
        if link.ty == port && source < nodes.len() && (drives_wire(nodes[source as int].ty)
            || level_set(nodes[source as int].ty) is Some) {
            before + 1
        } else {
            before
        }
    }
}

/// The letters that tell the vectors of the two ports apart.
pub open spec fn port_suffix(port: LinkType) -> Seq<u8> {
    match port {
        LinkType::Default => text("_b"),
        LinkType::Side => text("_s"),
    }
}

/// One wire of the port vector of node `id`.
pub open spec fn port_bit(id: nat, port: LinkType, index: nat) -> Seq<u8> {
    wire_name(id) + port_suffix(port) + text("[") + digits(index) + text("]")
}

/// Entry `k` of a port vector, counted from the highest level: the entry above it where
/// more than one link feeds the port, so that a level holds whenever a higher one does,
/// then what the links deliver at this level; a constant 0 where that is nothing.
pub open spec fn port_entry(
    nodes: Seq<CompileNode>,
    links: Seq<(u32, CompileLink)>,
    port: LinkType,
    id: nat,
    table: Seq<u8>,
    k: int,
) -> Seq<u8> {
    let start = if k > 0 && feeder_count(nodes, links, port, links.len()) > 1 {
        port_bit(id, port, (table.len() - k) as nat)
    } else {
        Seq::empty()
    };
    or_zero(port_terms(nodes, links, port, table[k], start, links.len())) + text(",")
}

/// The first `n` entries of a port vector.
pub open spec fn port_entries(
    nodes: Seq<CompileNode>,
    links: Seq<(u32, CompileLink)>,
    port: LinkType,
    id: nat,
    table: Seq<u8>,
    n: nat,
) -> Seq<u8>
    decreases n,
{
    if n == 0 {
        Seq::empty()
    } else {
        port_entries(nodes, links, port, id, table, (n - 1) as nat) + port_entry(
            nodes,
            links,
            port,
            id,
            table,
            n - 1,
        )
    }
}

/// The declaration that opens the vector of one port of comparator `id`.
pub open spec fn port_head(id: nat, port: LinkType, top: nat) -> Seq<u8> {
    text("\twire[") + digits(top) + text(":0] ") + wire_name(id) + port_suffix(port) + text(" = {")
}

/// The vector of one port of comparator `id`: an entry for each level of the table from
/// the highest down, and a constant 1 for the last.
pub open spec fn port_vector(
    nodes: Seq<CompileNode>,
    links: Seq<(u32, CompileLink)>,
    port: LinkType,
    id: nat,
    table: Seq<u8>,
) -> Seq<u8> {
    port_head(id, port, (table.len() - 1) as nat) + port_entries(
        nodes,
        links,
        port,
        id,
        table,
        (table.len() - 1) as nat,
    ) + text("1'b1};\n")
}

fn push_port_head(out: &mut Vec<u8>, id: u32, port: LinkType, top: usize)
    ensures
        final(out)@ == old(out)@ + port_head(id as nat, port, top as nat),
{
    let ghost t1 = text("\twire[");
    let ghost t2 = digits(top as nat);
    let ghost t3 = text(":0] ");
    let ghost t4 = wire_name(id as nat);
    let ghost t5 = port_suffix(port);
    let ghost t6 = text(" = {");
    push_text(out, "\twire[");
    push_decimal(out, top as u64);
    push_text(out, ":0] ");
    push_wire(out, id);
    push_port_suffix(out, port);
    push_text(out, " = {");
    proof {
        lemma_append(old(out)@, t1, t2);
        lemma_append(old(out)@, t1 + t2, t3);
        lemma_append(old(out)@, t1 + t2 + t3, t4);
        lemma_append(old(out)@, t1 + t2 + t3 + t4, t5);
        lemma_append(old(out)@, t1 + t2 + t3 + t4 + t5, t6);
    }
}

fn push_port_suffix(out: &mut Vec<u8>, port: LinkType)
    ensures
        final(out)@ == old(out)@ + port_suffix(port),
{
    match port {
        LinkType::Default => push_text(out, "_b"),
        LinkType::Side => push_text(out, "_s"),
    }
}

fn push_port_bit(out: &mut Vec<u8>, id: u32, port: LinkType, index: u64)
    ensures
        final(out)@ == old(out)@ + port_bit(id as nat, port, index as nat),
{
    push_wire(out, id);
    push_port_suffix(out, port);
    push_text(out, "[");
    push_decimal(out, index);
    push_text(out, "]");
    assert(out@ =~= old(out)@ + port_bit(id as nat, port, index as nat));
}

fn count_feeders(graph: &CompileGraph, links: &Vec<(u32, CompileLink)>, port: LinkType) -> (count: usize)
    requires
        graph.wf(),
    ensures
        count == feeder_count(graph.nodes(), links@, port, links@.len()),
{
    let mut count: usize = 0;
    let mut k: usize = 0;
    while k < links.len()
        invariant
            graph.wf(),
            k <= links.len(),
            count <= k,
            count == feeder_count(graph.nodes(), links@, port, k as nat),
        decreases links.len() - k,
    {
        let (source, link) = links[k];
        if is_port(&link, port) {
            match graph.node(source) {
                Some(node) => {
                    if has_wire(&node.ty) || levels_of(&node.ty).is_some() {
                        count += 1;
                    }
                },
                None => {},
            }
        }
        k += 1;
    }
    count
}

/// Appends a term to the disjunction that `out` holds from position `from` on.
fn push_or(out: &mut Vec<u8>, from: usize)
    requires
        from <= old(out)@.len(),
    ensures
        final(out)@ == old(out)@ + if old(out)@.len() > from {
            text("|")
        } else {
            Seq::<u8>::empty()
        },
{
    if out.len() > from {
        push_text(out, "|");
    } else {
        assert(out@ =~= old(out)@ + Seq::<u8>::empty());
    }
}

/// Appending a term to a disjunction that follows `head`.
pub proof fn lemma_append_term(head: Seq<u8>, before: Seq<u8>, term: Seq<u8>)
    ensures
        head + append_term(before, term) == (head + before) + (if before.len() > 0 {
            text("|")
        } else {
            Seq::<u8>::empty()
        }) + term,
{
    assert(head + append_term(before, term) =~= (head + before) + (if before.len() > 0 {
        text("|")
    } else {
        Seq::<u8>::empty()
    }) + term);
}

fn push_port_term(out: &mut Vec<u8>, node: &CompileNode, source: u32, ss: u8, dist: u8) -> (pushed: bool)
    requires
        dist <= 15,
    ensures
        pushed == port_term(*node, source as nat, ss, dist) is Some,
        pushed ==> final(out)@ == old(out)@ + port_term(*node, source as nat, ss, dist)->0,
        !pushed ==> final(out)@ == old(out)@,
{
    let constant = match node.ty {
        NodeType::Constant => true,
        _ => false,
    };
    if has_wire(&node.ty) {
        if ss == dist {
            push_wire(out, source);
            return true;
        }
    } else if constant {
        if ss == dist {
            push_text(out, "1'b1");
            return true;
        }
    } else {
        match levels_of(&node.ty) {
            Some(levels) => {
                if ss < dist {
                    let level: u8 = 16 - dist + ss;
                    if test_bit(levels, level) {
                        push_wire_bit(out, source, count_below(levels, level) as u64);
                        return true;
                    }
                }
            },
            None => {},
        }
    }
    false
}

fn port_term_exists(node: &CompileNode, ss: u8, dist: u8) -> (exists: bool)
    requires
        dist <= 15,
    ensures
        forall|id: nat| exists == (#[trigger] port_term(*node, id, ss, dist)) is Some,
{
    let constant = match node.ty {
        NodeType::Constant => true,
        _ => false,
    };
    if has_wire(&node.ty) || constant {
        ss == dist
    } else {
        match levels_of(&node.ty) {
            Some(levels) => ss < dist && test_bit(levels, 16 - dist + ss),
            None => false,
        }
    }
}

fn push_port_terms(
    out: &mut Vec<u8>,
    from: usize,
    Ghost(head): Ghost<Seq<u8>>,
    Ghost(start): Ghost<Seq<u8>>,
    graph: &CompileGraph,
    links: &Vec<(u32, CompileLink)>,
    port: LinkType,
    dist: u8,
)
    requires
        graph.wf(),
        old(out)@ == head + start,
        head.len() == from,
        dist <= 15,
    ensures
        final(out)@ == head + port_terms(graph.nodes(), links@, port, dist, start, links@.len()),
{
    let mut k: usize = 0;
    while k < links.len()
        invariant
            graph.wf(),
            dist <= 15,
            k <= links.len(),
            head.len() == from,
            out@ == head + port_terms(graph.nodes(), links@, port, dist, start, k as nat),
        decreases links.len() - k,
    {
        let ghost before = port_terms(graph.nodes(), links@, port, dist, start, k as nat);
        let (source, link) = links[k];
        if is_port(&link, port) {
            match graph.node(source) {
                Some(node) => {
                    if port_term_exists(&node, link.ss, dist) {
                        proof {
                            lemma_append_term(
                                head,
                                before,
                                port_term(node, source as nat, link.ss, dist)->0,
                            );
                        }
                        push_or(out, from);
                        let pushed = push_port_term(out, &node, source, link.ss, dist);
                    }
                },
                None => {},
            }
        }
        k += 1;
    }
}

fn push_or_zero(out: &mut Vec<u8>, from: usize, Ghost(head): Ghost<Seq<u8>>, Ghost(terms): Ghost<Seq<u8>>)
    requires
        old(out)@ == head + terms,
        head.len() == from,
    ensures
        final(out)@ == head + or_zero(terms),
{
    if out.len() == from {
        push_text(out, "1'b0");
        proof {
            assert(terms =~= Seq::<u8>::empty());
            lemma_append(head, terms, text("1'b0"));
            assert(terms + text("1'b0") =~= text("1'b0"));
        }
    }
}

fn push_port_entry(
    out: &mut Vec<u8>,
    graph: &CompileGraph,
    links: &Vec<(u32, CompileLink)>,
    port: LinkType,
    id: u32,
    table: &Vec<u8>,
    k: usize,
    feeders: usize,
)
    requires
        graph.wf(),
        1 <= table@.len() <= 16,
        forall|j: int| 0 <= j < table@.len() ==> (#[trigger] table@[j]) <= 15,
        k < table@.len(),
        feeders == feeder_count(graph.nodes(), links@, port, links@.len()),
    ensures
        final(out)@ == old(out)@ + port_entry(graph.nodes(), links@, port, id as nat, table@, k as int),
{
    let ghost base = out@;
    let from = out.len();
    let ghost start = if k > 0 && feeders > 1 {
        port_bit(id as nat, port, (table@.len() - k) as nat)
    } else {
        Seq::<u8>::empty()
    };
    if k > 0 && feeders > 1 {
        push_port_bit(out, id, port, (table.len() - k) as u64);
    } else {
        proof {
            lemma_append_nothing(base);
        }
    }
    push_port_terms(out, from, Ghost(base), Ghost(start), graph, links, port, table[k]);
    let ghost terms = port_terms(graph.nodes(), links@, port, table@[k as int], start, links@.len());
    push_or_zero(out, from, Ghost(base), Ghost(terms));
    push_text(out, ",");
    proof {
        lemma_append(base, or_zero(terms), text(","));
    }
}

fn push_port_vector(
    out: &mut Vec<u8>,
    graph: &CompileGraph,
    links: &Vec<(u32, CompileLink)>,
    port: LinkType,
    id: u32,
    table: &Vec<u8>,
)
    requires
        graph.wf(),
        1 <= table@.len() <= 16,
        forall|k: int| 0 <= k < table@.len() ==> (#[trigger] table@[k]) <= 15,
    ensures
        final(out)@ == old(out)@ + port_vector(graph.nodes(), links@, port, id as nat, table@),
{
    let size = table.len();
    let feeders = count_feeders(graph, links, port);
    push_port_head(out, id, port, size - 1);
    let ghost opened = out@;
    let mut k: usize = 0;
    proof {
        lemma_append_nothing(opened);
    }
    while k < size - 1
        invariant
            graph.wf(),
            size == table@.len(),
            1 <= size <= 16,
            forall|j: int| 0 <= j < table@.len() ==> (#[trigger] table@[j]) <= 15,
            k <= size - 1,
            feeders == feeder_count(graph.nodes(), links@, port, links@.len()),
            out@ == opened + port_entries(graph.nodes(), links@, port, id as nat, table@, k as nat),
        decreases size - 1 - k,
    {
        proof {
            lemma_append(
                opened,
                port_entries(graph.nodes(), links@, port, id as nat, table@, k as nat),
                port_entry(graph.nodes(), links@, port, id as nat, table@, k as int),
            );
        }
        push_port_entry(out, graph, links, port, id, table, k, feeders);
        k += 1;
    }
    push_text(out, "1'b1};\n");
    proof {
        let head = port_head(id as nat, port, (size - 1) as nat);
        let entries = port_entries(graph.nodes(), links@, port, id as nat, table@, (size - 1) as nat);
        lemma_append(old(out)@, head, entries);
        lemma_append(old(out)@, head + entries, text("1'b1};\n"));
    }
}

/// The first entry of a side table, from `from` on, whose distance is at least `bound`.
pub open spec fn first_side(s_table: Seq<u8>, bound: int, from: nat) -> Option<nat>
    decreases s_table.len() - from,
{
    if from >= s_table.len() {
        None
    } else if s_table[from as int] >= bound {
        Some(from)
    } else {
        first_side(s_table, bound, from + 1)
    }
}

/// Whether one of the first `n` pairs of a selector list names the back wire `b_idx`.
pub open spec fn holds_back(lut: Seq<(u8, u8)>, b_idx: u8, n: nat) -> bool
    decreases n,
{
    if n == 0 || n > lut.len() {
        false
    } else {
        lut[n - 1].0 == b_idx || holds_back(lut, b_idx, (n - 1) as nat)
    }
}

/// The first pair of a selector list, from `from` on, that names the side wire `s_idx`.
pub open spec fn first_with_side(lut: Seq<(u8, u8)>, s_idx: u8, from: nat) -> Option<nat>
    decreases lut.len() - from,
{
    if from >= lut.len() {
        None
    } else if lut[from as int].1 == s_idx {
        Some(from)
    } else {
        first_with_side(lut, s_idx, from + 1)
    }
}

/// The selector of an output level in compare mode, found among the first `n` back
/// entries, from the last one upwards: the first back level that is not too far for the
/// output (distances that sum to 15 or more are skipped) and has a side level at no less
/// a distance; of those side levels the first. At most one pair.
pub open spec fn compare_lut(b_table: Seq<u8>, s_table: Seq<u8>, o_dist: u8, n: nat) -> Seq<(u8, u8)>
    decreases n,
{
    if n == 0 || n > b_table.len() {
        Seq::empty()
    } else if b_table[n - 1] + o_dist >= 15 {
        compare_lut(b_table, s_table, o_dist, (n - 1) as nat)
    } else {
        match first_side(s_table, b_table[n - 1] as int, 0) {
            Some(s) => seq![((b_table.len() - n) as u8, (s_table.len() - s) as u8)],
            None => compare_lut(b_table, s_table, o_dist, (n - 1) as nat),
        }
    }
}

/// The selectors of an output level in subtract mode after the first `n` back entries.
/// A back entry that a pair already names is passed over, and so is one too far for the
/// output. Otherwise it pairs with the first side level that lies further than back and
/// output together, and a pair that named the same side wire before gives way to it.
pub open spec fn subtract_lut(b_table: Seq<u8>, s_table: Seq<u8>, o_dist: u8, n: nat) -> Seq<(u8, u8)>
    decreases n,
{
    if n == 0 || n > b_table.len() {
        Seq::empty()
    } else {
        let before = subtract_lut(b_table, s_table, o_dist, (n - 1) as nat);
        let b_idx = (b_table.len() - n) as u8;
        if holds_back(before, b_idx, before.len()) || b_table[n - 1] + o_dist >= 15 {
            before
        } else {
            match first_side(s_table, b_table[n - 1] + o_dist + 1, 0) {
                Some(s) => {
                    let s_idx = (s_table.len() - s) as u8;
                    match first_with_side(before, s_idx, 0) {
                        Some(i) => before.remove(i as int).push((b_idx, s_idx)),
                        None => before.push((b_idx, s_idx)),
                    }
                },
                None => before,
            }
        }
    }
}

/// The selectors of an output level at distance `o_dist` from the anchor.
pub open spec fn output_lut(mode: ComparatorMode, b_table: Seq<u8>, s_table: Seq<u8>, o_dist: u8) -> Seq<
    (u8, u8),
> {
    match mode {
        ComparatorMode::Compare => compare_lut(b_table, s_table, o_dist, b_table.len()),
        ComparatorMode::Subtract => subtract_lut(b_table, s_table, o_dist, b_table.len()),
    }
}

pub proof fn lemma_first_with_side(lut: Seq<(u8, u8)>, s_idx: u8, from: nat)
    ensures
        first_with_side(lut, s_idx, from) matches Some(i) ==> from <= i < lut.len() && lut[i as int].1
            == s_idx,
    decreases lut.len() - from,
{
    if from < lut.len() && lut[from as int].1 != s_idx {
        lemma_first_with_side(lut, s_idx, from + 1);
    }
}

pub proof fn lemma_compare_lut_short(b_table: Seq<u8>, s_table: Seq<u8>, o_dist: u8, n: nat)
    ensures
        compare_lut(b_table, s_table, o_dist, n).len() <= 1,
    decreases n,
{
    if n > 0 {
        lemma_compare_lut_short(b_table, s_table, o_dist, (n - 1) as nat);
    }
}

proof fn lemma_subtract_lut_short(b_table: Seq<u8>, s_table: Seq<u8>, o_dist: u8, n: nat)
    ensures
        subtract_lut(b_table, s_table, o_dist, n).len() <= n,
    decreases n,
{
    if n > 0 {
        lemma_subtract_lut_short(b_table, s_table, o_dist, (n - 1) as nat);
        let before = subtract_lut(b_table, s_table, o_dist, (n - 1) as nat);
        if n <= b_table.len() {
            match first_side(s_table, b_table[n - 1] + o_dist + 1, 0) {
                Some(s) => {
                    lemma_first_with_side(before, (s_table.len() - s) as u8, 0);
                },
                None => {},
            }
        }
    }
}

fn find_side(s_table: &Vec<u8>, bound: u16) -> (found: Option<usize>)
    ensures
        first_side(s_table@, bound as int, 0) == match found {
            Some(s) => Some(s as nat),
            None => None,
        },
        found matches Some(s) ==> s < s_table@.len(),
{
    let mut s: usize = 0;
    while s < s_table.len()
        invariant
            s <= s_table.len(),
            first_side(s_table@, bound as int, 0) == first_side(s_table@, bound as int, s as nat),
        decreases s_table.len() - s,
    {
        if s_table[s] as u16 >= bound {
            return Some(s);
        }
        s += 1;
    }
    None
}

fn names_back(lut: &Vec<(u8, u8)>, b_idx: u8) -> (found: bool)
    ensures
        found == holds_back(lut@, b_idx, lut@.len()),
{
    let mut found = false;
    let mut i: usize = 0;
    while i < lut.len()
        invariant
            i <= lut.len(),
            found == holds_back(lut@, b_idx, i as nat),
        decreases lut.len() - i,
    {
        if lut[i].0 == b_idx {
            found = true;
        }
        i += 1;
    }
    found
}

fn find_with_side(lut: &Vec<(u8, u8)>, s_idx: u8) -> (found: Option<usize>)
    ensures
        first_with_side(lut@, s_idx, 0) == match found {
            Some(i) => Some(i as nat),
            None => None,
        },
        found matches Some(i) ==> i < lut@.len(),
{
    let mut i: usize = 0;
    while i < lut.len()
        invariant
            i <= lut.len(),
            first_with_side(lut@, s_idx, 0) == first_with_side(lut@, s_idx, i as nat),
        decreases lut.len() - i,
    {
        if lut[i].1 == s_idx {
            return Some(i);
        }
        i += 1;
    }
    None
}

/// The selector of an output level in compare mode.
pub fn compare_selectors(b_table: &Vec<u8>, s_table: &Vec<u8>, o_dist: u8) -> (lut: Vec<(u8, u8)>)
    requires
        1 <= b_table@.len() <= 16,
        1 <= s_table@.len() <= 16,
        o_dist <= 15,
    ensures
        lut@ == compare_lut(b_table@, s_table@, o_dist, b_table@.len()),
        lut@.len() <= 1,
{
    let mut lut: Vec<(u8, u8)> = Vec::new();
    let b_size = b_table.len();
    let s_size = s_table.len();
    let mut n: usize = b_size;
    proof {
        lemma_compare_lut_short(b_table@, s_table@, o_dist, b_size as nat);
    }
    while n > 0
        invariant
            n <= b_size,
            b_size == b_table@.len(),
            s_size == s_table@.len(),
            b_size <= 16,
            s_size <= 16,
            o_dist <= 15,
            lut@.len() == 0,
            compare_lut(b_table@, s_table@, o_dist, b_size as nat) == compare_lut(
                b_table@,
                s_table@,
                o_dist,
                n as nat,
            ),
        decreases n,
    {
        let b_dist = b_table[n - 1];
        if b_dist as u16 + o_dist as u16 >= 15 {
            n -= 1;
        } else {
            match find_side(s_table, b_dist as u16) {
                Some(s) => {
                    lut.push(((b_size - n) as u8, (s_size - s) as u8));
                    assert(first_side(s_table@, b_table@[n - 1] as int, 0) == Some(s as nat));
                    assert(lut@ =~= compare_lut(b_table@, s_table@, o_dist, n as nat));
                    return lut;
                },
                None => {
                    n -= 1;
                },
            }
        }
    }
    assert(lut@ =~= compare_lut(b_table@, s_table@, o_dist, 0));
    lut
}

/// The selectors of an output level in subtract mode.
pub fn subtract_selectors(b_table: &Vec<u8>, s_table: &Vec<u8>, o_dist: u8) -> (lut: Vec<(u8, u8)>)
    requires
        1 <= b_table@.len() <= 16,
        1 <= s_table@.len() <= 16,
        o_dist <= 15,
    ensures
        lut@ == subtract_lut(b_table@, s_table@, o_dist, b_table@.len()),
        lut@.len() <= 16,
{
    let mut lut: Vec<(u8, u8)> = Vec::new();
    let b_size = b_table.len();
    let s_size = s_table.len();
    let mut n: usize = 0;
    while n < b_size
        invariant
            n <= b_size,
            b_size == b_table@.len(),
            s_size == s_table@.len(),
            b_size <= 16,
            s_size <= 16,
            o_dist <= 15,
            lut@ == subtract_lut(b_table@, s_table@, o_dist, n as nat),
        decreases b_size - n,
    {
        n += 1;
        let b_idx = (b_size - n) as u8;
        let b_dist = b_table[n - 1];
        let ghost before = lut@;
        if !names_back(&lut, b_idx) && (b_dist as u16 + o_dist as u16) < 15 {
            match find_side(s_table, b_dist as u16 + o_dist as u16 + 1) {
                Some(s) => {
                    let s_idx = (s_size - s) as u8;
                    assert(first_side(s_table@, b_table@[n - 1] + o_dist + 1, 0) == Some(s as nat));
                    match find_with_side(&lut, s_idx) {
                        Some(i) => {
                            lut.remove(i);
                        },
                        None => {},
                    }
                    lut.push((b_idx, s_idx));
                },
                None => {},
            }
        }
    }
    proof {
        lemma_subtract_lut_short(b_table@, s_table@, o_dist, b_size as nat);
    }
    lut
}

/// The term of one selector: the back wire alone where the pair names no side wire of
/// the vector, else the back wire and not the side wire.
pub open spec fn lut_term(id: nat, pair: (u8, u8), s_size: nat) -> Seq<u8> {
    if pair.1 >= s_size {
        port_bit(id, LinkType::Default, pair.0 as nat)
    } else {
        text("(") + port_bit(id, LinkType::Default, pair.0 as nat) + text("&~") + port_bit(
            id,
            LinkType::Side,
            pair.1 as nat,
        ) + text(")")
    }
}

/// The disjunction of the first `n` selectors, after the terms in `start`.
pub open spec fn lut_terms(id: nat, lut: Seq<(u8, u8)>, s_size: nat, start: Seq<u8>, n: nat) -> Seq<u8>
    decreases n,
{
    if n == 0 || n > lut.len() {
        start
    } else {
        append_term(
            lut_terms(id, lut, s_size, start, (n - 1) as nat),
            lut_term(id, lut[n - 1], s_size),
        )
    }
}

/// One wire of the output vector of node `id`.
pub open spec fn output_bit(id: nat, index: nat) -> Seq<u8> {
    wire_name(id) + text("_o[") + digits(index) + text("]")
}

/// Entry `i` of the output vector, counted from the highest level. In compare mode, and
/// where no selector was found, the entry above it comes first; the highest entry
/// without a selector starts from a constant 0. Then the selectors.
pub open spec fn output_entry(
    id: nat,
    mode: ComparatorMode,
    lut: Seq<(u8, u8)>,
    s_size: nat,
    o_size: nat,
    i: nat,
) -> Seq<u8> {
    let start = if i > 0 && (lut.len() == 0 || mode is Compare) {
        output_bit(id, (o_size - i + 1) as nat)
    } else if i == 0 && lut.len() == 0 {
        text("1'b0")
    } else {
        Seq::empty()
    };
    lut_terms(id, lut, s_size, start, lut.len()) + text(",\n\t\t")
}

/// The first `n` entries of the output vector.
pub open spec fn output_entries(
    id: nat,
    mode: ComparatorMode,
    b_table: Seq<u8>,
    s_table: Seq<u8>,
    o_table: Seq<u8>,
    n: nat,
) -> Seq<u8>
    decreases n,
{
    if n == 0 || n > o_table.len() {
        Seq::empty()
    } else {
        output_entries(id, mode, b_table, s_table, o_table, (n - 1) as nat) + output_entry(
            id,
            mode,
            output_lut(mode, b_table, s_table, (14 - o_table[n - 1]) as u8),
            s_table.len(),
            o_table.len(),
            (n - 1) as nat,
        )
    }
}

/// The output vector of comparator `id`: an entry for each level above the anchor from
/// the highest down, and a constant 1 for the anchor.
pub open spec fn output_vector(
    id: nat,
    mode: ComparatorMode,
    b_table: Seq<u8>,
    s_table: Seq<u8>,
    o_table: Seq<u8>,
) -> Seq<u8> {
    output_head(id, o_table.len()) + output_entries(
        id,
        mode,
        b_table,
        s_table,
        o_table,
        o_table.len(),
    ) + text("1'b1\n\t};\n")
}

/// The declaration that opens the output vector of comparator `id`.
pub open spec fn output_head(id: nat, top: nat) -> Seq<u8> {
    text("\twire[") + digits(top) + text(":0] ") + wire_name(id) + text("_o = {\n\t\t")
}

fn push_output_head(out: &mut Vec<u8>, id: u32, top: usize)
    ensures
        final(out)@ == old(out)@ + output_head(id as nat, top as nat),
{
    let ghost t1 = text("\twire[");
    let ghost t2 = digits(top as nat);
    let ghost t3 = text(":0] ");
    let ghost t4 = wire_name(id as nat);
    let ghost t5 = text("_o = {\n\t\t");
    push_text(out, "\twire[");
    push_decimal(out, top as u64);
    push_text(out, ":0] ");
    push_wire(out, id);
    push_text(out, "_o = {\n\t\t");
    proof {
        lemma_append(old(out)@, t1, t2);
        lemma_append(old(out)@, t1 + t2, t3);
        lemma_append(old(out)@, t1 + t2 + t3, t4);
        lemma_append(old(out)@, t1 + t2 + t3 + t4, t5);
    }
}

/// The state of the first `n` wires of a bundle at the start, from the highest level
/// down: 1 for each level that the comparator's strength reaches.
pub open spec fn initial_bits(o_table: Seq<u8>, strength: u8, n: nat) -> Seq<u8>
    decreases n,
{
    if n == 0 || n > o_table.len() {
        Seq::empty()
    } else {
        initial_bits(o_table, strength, (n - 1) as nat) + flag_text(15 - o_table[n - 1] <= strength)
    }
}

/// The declaration of the bundle of comparator `id`.
pub open spec fn bundle_text(id: nat, o_size: nat) -> Seq<u8> {
    text("\twire[") + digits(o_size) + text(":0] ") + wire_name(id) + text(";\n")
}

/// The head of the register of a bundle, up to its initial state.
pub open spec fn register_head(o_size: nat) -> Seq<u8> {
    text("\tcomp #(.size(") + digits(o_size + 1) + text("), .state(") + digits(o_size + 1) + text(
        "'b",
    )
}

/// The end of the register of a bundle: the state of the anchor, and the ports.
pub open spec fn register_tail(id: nat) -> Seq<u8> {
    text("1)) c") + digits(id) + text(" (.i_clk(tick), .i_in(") + wire_name(id) + text(
        "_o), .o_out(",
    ) + wire_name(id) + text("));\n")
}

/// The bundle of comparator `id` and the register that holds it.
pub open spec fn register_text(id: nat, o_table: Seq<u8>, strength: u8) -> Seq<u8> {
    bundle_text(id, o_table.len()) + register_head(o_table.len()) + initial_bits(
        o_table,
        strength,
        o_table.len(),
    ) + register_tail(id)
}

/// Everything that a discrete comparator puts into the module.
pub open spec fn comparator_text(
    nodes: Seq<CompileNode>,
    links: Seq<(u32, CompileLink)>,
    id: nat,
    mode: ComparatorMode,
    outputs: u16,
    side: u16,
    back: u16,
    strength: u8,
) -> Seq<u8> {
    port_vector(nodes, links, LinkType::Default, id, port_table(back)) + port_vector(
        nodes,
        links,
        LinkType::Side,
        id,
        port_table(side),
    ) + output_vector(id, mode, port_table(back), port_table(side), output_table(outputs))
        + register_text(id, output_table(outputs), strength)
}

fn push_output_bit(out: &mut Vec<u8>, id: u32, index: u64)
    ensures
        final(out)@ == old(out)@ + output_bit(id as nat, index as nat),
{
    push_wire(out, id);
    push_text(out, "_o[");
    push_decimal(out, index);
    push_text(out, "]");
    assert(out@ =~= old(out)@ + output_bit(id as nat, index as nat));
}

fn push_lut_term(out: &mut Vec<u8>, id: u32, pair: (u8, u8), s_size: usize)
    ensures
        final(out)@ == old(out)@ + lut_term(id as nat, pair, s_size as nat),
{
    let (b_idx, s_idx) = pair;
    if s_idx as usize >= s_size {
        push_port_bit(out, id, LinkType::Default, b_idx as u64);
    } else {
        push_text(out, "(");
        push_port_bit(out, id, LinkType::Default, b_idx as u64);
        push_text(out, "&~");
        push_port_bit(out, id, LinkType::Side, s_idx as u64);
        push_text(out, ")");
        assert(out@ =~= old(out)@ + lut_term(id as nat, pair, s_size as nat));
    }
}

fn push_lut_terms(
    out: &mut Vec<u8>,
    from: usize,
    Ghost(head): Ghost<Seq<u8>>,
    Ghost(start): Ghost<Seq<u8>>,
    id: u32,
    lut: &Vec<(u8, u8)>,
    s_size: usize,
)
    requires
        old(out)@ == head + start,
        head.len() == from,
    ensures
        final(out)@ == head + lut_terms(id as nat, lut@, s_size as nat, start, lut@.len()),
{
    let mut k: usize = 0;
    while k < lut.len()
        invariant
            k <= lut.len(),
            head.len() == from,
            out@ == head + lut_terms(id as nat, lut@, s_size as nat, start, k as nat),
        decreases lut.len() - k,
    {
        proof {
            lemma_append_term(
                head,
                lut_terms(id as nat, lut@, s_size as nat, start, k as nat),
                lut_term(id as nat, lut@[k as int], s_size as nat),
            );
        }
        push_or(out, from);
        push_lut_term(out, id, lut[k], s_size);
        k += 1;
    }
}

fn push_output_entry(
    out: &mut Vec<u8>,
    id: u32,
    compare: bool,
    Ghost(mode): Ghost<ComparatorMode>,
    lut: &Vec<(u8, u8)>,
    s_size: usize,
    o_size: usize,
    i: usize,
)
    requires
        compare == (mode is Compare),
        i < o_size <= 15,
    ensures
        final(out)@ == old(out)@ + output_entry(
            id as nat,
            mode,
            lut@,
            s_size as nat,
            o_size as nat,
            i as nat,
        ),
{
    let ghost base = out@;
    let from = out.len();
    let ghost start = if i > 0 && (lut@.len() == 0 || mode is Compare) {
        output_bit(id as nat, (o_size - i + 1) as nat)
    } else if i == 0 && lut@.len() == 0 {
        text("1'b0")
    } else {
        Seq::<u8>::empty()
    };
    if i > 0 && (lut.len() == 0 || compare) {
        push_output_bit(out, id, (o_size - i + 1) as u64);
    } else if i == 0 && lut.len() == 0 {
        push_text(out, "1'b0");
    } else {
        proof {
            lemma_append_nothing(base);
        }
    }
    push_lut_terms(out, from, Ghost(base), Ghost(start), id, lut, s_size);
    push_text(out, ",\n\t\t");
    proof {
        lemma_append(
            base,
            lut_terms(id as nat, lut@, s_size as nat, start, lut@.len()),
            text(",\n\t\t"),
        );
    }
}

fn push_output_vector(
    out: &mut Vec<u8>,
    id: u32,
    mode: ComparatorMode,
    b_table: &Vec<u8>,
    s_table: &Vec<u8>,
    o_table: &Vec<u8>,
)
    requires
        1 <= b_table@.len() <= 16,
        1 <= s_table@.len() <= 16,
        o_table@.len() <= 15,
        forall|k: int| 0 <= k < o_table@.len() ==> (#[trigger] o_table@[k]) < 15,
    ensures
        final(out)@ == old(out)@ + output_vector(id as nat, mode, b_table@, s_table@, o_table@),
{
    let o_size = o_table.len();
    push_output_head(out, id, o_size);
    let ghost opened = out@;
    let compare = match mode {
        ComparatorMode::Compare => true,
        ComparatorMode::Subtract => false,
    };
    let mut i: usize = 0;
    proof {
        lemma_append_nothing(opened);
    }
    while i < o_size
        invariant
            1 <= b_table@.len() <= 16,
            1 <= s_table@.len() <= 16,
            o_size == o_table@.len(),
            o_size <= 15,
            forall|k: int| 0 <= k < o_table@.len() ==> (#[trigger] o_table@[k]) < 15,
            i <= o_size,
            compare == (mode is Compare),
            out@ == opened + output_entries(id as nat, mode, b_table@, s_table@, o_table@, i as nat),
        decreases o_size - i,
    {
        let o_dist: u8 = 14 - o_table[i];
        let lut = if compare {
            compare_selectors(b_table, s_table, o_dist)
        } else {
            subtract_selectors(b_table, s_table, o_dist)
        };
        proof {
            lemma_append(
                opened,
                output_entries(id as nat, mode, b_table@, s_table@, o_table@, i as nat),
                output_entry(id as nat, mode, lut@, s_table@.len(), o_size as nat, i as nat),
            );
        }
        push_output_entry(out, id, compare, Ghost(mode), &lut, s_table.len(), o_size, i);
        i += 1;
    }
    push_text(out, "1'b1\n\t};\n");
    proof {
        let head = output_head(id as nat, o_size as nat);
        let entries = output_entries(id as nat, mode, b_table@, s_table@, o_table@, o_size as nat);
        lemma_append(old(out)@, head, entries);
        lemma_append(old(out)@, head + entries, text("1'b1\n\t};\n"));
    }
}

fn push_bundle(out: &mut Vec<u8>, id: u32, o_size: usize)
    ensures
        final(out)@ == old(out)@ + bundle_text(id as nat, o_size as nat),
{
    push_text(out, "\twire[");
    push_decimal(out, o_size as u64);
    push_text(out, ":0] ");
    push_wire(out, id);
    push_text(out, ";\n");
    assert(out@ =~= old(out)@ + bundle_text(id as nat, o_size as nat));
}

fn push_register_head(out: &mut Vec<u8>, o_size: usize)
    requires
        o_size <= 15,
    ensures
        final(out)@ == old(out)@ + register_head(o_size as nat),
{
    push_text(out, "\tcomp #(.size(");
    push_decimal(out, (o_size + 1) as u64);
    push_text(out, "), .state(");
    push_decimal(out, (o_size + 1) as u64);
    push_text(out, "'b");
    assert(out@ =~= old(out)@ + register_head(o_size as nat));
}

fn push_initial_bits(out: &mut Vec<u8>, o_table: &Vec<u8>, strength: u8)
    requires
        forall|k: int| 0 <= k < o_table@.len() ==> (#[trigger] o_table@[k]) < 15,
    ensures
        final(out)@ == old(out)@ + initial_bits(o_table@, strength, o_table@.len()),
{
    let o_size = o_table.len();
    let mut i: usize = 0;
    assert(out@ =~= old(out)@ + initial_bits(o_table@, strength, 0));
    while i < o_size
        invariant
            o_size == o_table@.len(),
            forall|k: int| 0 <= k < o_table@.len() ==> (#[trigger] o_table@[k]) < 15,
            i <= o_size,
            out@ == old(out)@ + initial_bits(o_table@, strength, i as nat),
        decreases o_size - i,
    {
        push_flag(out, 15 - o_table[i] <= strength);
        i += 1;
        assert(out@ =~= old(out)@ + initial_bits(o_table@, strength, i as nat));
    }
}

#[verifier::rlimit(40)]
fn push_register_tail(out: &mut Vec<u8>, id: u32)
    ensures
        final(out)@ == old(out)@ + register_tail(id as nat),
{
    push_text(out, "1)) c");
    push_decimal(out, id as u64);
    push_text(out, " (.i_clk(tick), .i_in(");
    push_wire(out, id);
    push_text(out, "_o), .o_out(");
    push_wire(out, id);
    push_text(out, "));\n");
    assert(out@ =~= old(out)@ + register_tail(id as nat));
}

fn push_register(out: &mut Vec<u8>, id: u32, o_table: &Vec<u8>, strength: u8)
    requires
        o_table@.len() <= 15,
        forall|k: int| 0 <= k < o_table@.len() ==> (#[trigger] o_table@[k]) < 15,
    ensures
        final(out)@ == old(out)@ + register_text(id as nat, o_table@, strength),
{
    let ghost t1 = bundle_text(id as nat, o_table@.len());
    let ghost t2 = register_head(o_table@.len());
    let ghost t3 = initial_bits(o_table@, strength, o_table@.len());
    let ghost t4 = register_tail(id as nat);
    push_bundle(out, id, o_table.len());
    push_register_head(out, o_table.len());
    push_initial_bits(out, o_table, strength);
    push_register_tail(out, id);
    proof {
        lemma_append(old(out)@, t1, t2);
        lemma_append(old(out)@, t1 + t2, t3);
        lemma_append(old(out)@, t1 + t2 + t3, t4);
    }
}

fn push_comparator(
    out: &mut Vec<u8>,
    graph: &CompileGraph,
    links: &Vec<(u32, CompileLink)>,
    id: u32,
    mode: ComparatorMode,
    outputs: u16,
    side: u16,
    back: u16,
    strength: u8,
)
    requires
        graph.wf(),
    ensures
        final(out)@ == old(out)@ + comparator_text(
            graph.nodes(),
            links@,
            id as nat,
            mode,
            outputs,
            side,
            back,
            strength,
        ),
{
    let b_table = port_distances(back);
    let s_table = port_distances(side);
    let o_table = distance_table(outputs, 15);
    let ghost t1 = port_vector(graph.nodes(), links@, LinkType::Default, id as nat, b_table@);
    let ghost t2 = port_vector(graph.nodes(), links@, LinkType::Side, id as nat, s_table@);
    let ghost t3 = output_vector(id as nat, mode, b_table@, s_table@, o_table@);
    let ghost t4 = register_text(id as nat, o_table@, strength);
    push_port_vector(out, graph, links, LinkType::Default, id, &b_table);
    push_port_vector(out, graph, links, LinkType::Side, id, &s_table);
    push_output_vector(out, id, mode, &b_table, &s_table, &o_table);
    push_register(out, id, &o_table, strength);
    proof {
        lemma_append(old(out)@, t1, t2);
        lemma_append(old(out)@, t1 + t2, t3);
        lemma_append(old(out)@, t1 + t2 + t3, t4);
    }
}


/// Whether a node is an input of the circuit: it takes one bit of the input vector.
pub open spec fn is_input_node(ty: NodeType) -> bool {
    ty is Lever || ty is PressurePlate || ty is Button
}

/// How many bits of the output vector a node takes.
pub open spec fn output_width(ty: NodeType) -> nat {
    match ty {
        NodeType::Lamp | NodeType::Trapdoor => 1,
        NodeType::Wire => 4,
        _ => 0,
    }
}

/// The number of inputs among the first `n` nodes: the input bit that the next input gets.
pub open spec fn inputs_before(nodes: Seq<CompileNode>, n: nat) -> nat
    decreases n,
{
    if n == 0 || n > nodes.len() {
        0
    } else {
        inputs_before(nodes, (n - 1) as nat) + if is_input_node(nodes[n - 1].ty) {
            1nat
        } else {
            0nat
        }
    }
}

/// The number of output bits that the first `n` nodes take: the bit where the next
/// output starts.
pub open spec fn outputs_before(nodes: Seq<CompileNode>, n: nat) -> nat
    decreases n,
{
    if n == 0 || n > nodes.len() {
        0
    } else {
        outputs_before(nodes, (n - 1) as nat) + output_width(nodes[n - 1].ty)
    }
}

pub proof fn lemma_counts_bounded(nodes: Seq<CompileNode>, n: nat)
    ensures
        inputs_before(nodes, n) <= n,
        outputs_before(nodes, n) <= 4 * n,
    decreases n,
{
    if n > 0 {
        lemma_counts_bounded(nodes, (n - 1) as nat);
    }
}

/// The declaration of the wire of node `id`.
pub open spec fn wire_text(id: nat) -> Seq<u8> {
    text("\twire ") + wire_name(id) + text(";\n")
}

/// An input: its wire, taken from its bit of the input vector.
pub open spec fn source_text(id: nat, input_id: nat) -> Seq<u8> {
    text("\twire ") + wire_name(id) + text(" = inputs[") + digits(input_id) + text("];\n")
}

/// A one-bit output: its bit of the output vector, fed by the links to its default port.
pub open spec fn sink_text(nodes: Seq<CompileNode>, links: Seq<(u32, CompileLink)>, output_id: nat) -> Seq<
    u8,
> {
    text("\tassign outputs[") + digits(output_id) + text("] = (") + inputs_text(
        nodes,
        links,
        LinkType::Default,
        links.len(),
    ) + text(");\n")
}

/// The first link, from `from` on, that enters the default port from a comparator.
pub open spec fn first_bundle(nodes: Seq<CompileNode>, links: Seq<(u32, CompileLink)>, from: nat) -> Option<
    nat,
>
    decreases links.len() - from,
{
    if from >= links.len() {
        None
    } else if links[from as int].1.ty == LinkType::Default && links[from as int].0 < nodes.len()
        && level_set(nodes[links[from as int].0 as int].ty) is Some {
        Some(from)
    } else {
        first_bundle(nodes, links, from + 1)
    }
}

/// Four wires of the bundle of comparator `id`, from `index` upwards.
pub open spec fn slice_text(id: nat, index: nat) -> Seq<u8> {
    wire_name(id) + text("[") + digits(index + 3) + text(":") + digits(index) + text("]")
}

/// Four wires of the bundle of a comparator from the wire that a link selects, and
/// zeros where the four are not all wires of the bundle.
pub open spec fn bundle_slice(id: nat, states: u16, ss: u8) -> Seq<u8> {
    if link_index(states, ss) + 3 < bundle_width(states) {
        slice_text(id, link_index(states, ss))
    } else {
        text("4'b0000")
    }
}

/// What a four-bit output shows: four wires of the first comparator that feeds it, from
/// the wire that the link selects; zeros where no comparator feeds it.
pub open spec fn hex_source(nodes: Seq<CompileNode>, links: Seq<(u32, CompileLink)>) -> Seq<u8> {
    match first_bundle(nodes, links, 0) {
        Some(k) => bundle_slice(
            links[k as int].0 as nat,
            level_set(nodes[links[k as int].0 as int].ty)->0,
            links[k as int].1.ss,
        ),
        None => text("4'b0000"),
    }
}

/// A four-bit output: four bits of the output vector in a row.
pub open spec fn hex_text(nodes: Seq<CompileNode>, links: Seq<(u32, CompileLink)>, output_id: nat) -> Seq<
    u8,
> {
    text("\tassign outputs[") + digits(output_id + 3) + text(":") + digits(output_id) + text("] = ")
        + hex_source(nodes, links) + text(";\n")
}

/// The first parameters of a repeater: its delay and its state.
pub open spec fn repeater_state(delay: u8, powered: bool) -> Seq<u8> {
    text("\trepeater #(.t(") + digits(delay as nat) + text("), .state(1'b") + flag_text(powered)
}

/// The last parameters of a repeater, and its name.
pub open spec fn repeater_locks(id: nat, locker: bool, locking: bool) -> Seq<u8> {
    text("), .lock_out(") + flag_text(locker) + text("), .lockable(") + flag_text(locking) + text(
        ")) c",
    ) + digits(id)
}

/// The head of a repeater: its parameters and its name.
pub open spec fn repeater_head(id: nat, delay: u8, powered: bool, locker: bool, locking: bool) -> Seq<
    u8,
> {
    repeater_state(delay, powered) + repeater_locks(id, locker, locking)
}

/// The end of a primitive: its output port.
pub open spec fn output_port(id: nat) -> Seq<u8> {
    text("), .o_out(") + wire_name(id) + text("));\n")
}

/// A repeater: its wire, and the primitive with its delay, its state, whether it locks
/// another repeater and whether it can be locked, fed by both ports.
pub open spec fn repeater_text(
    nodes: Seq<CompileNode>,
    incoming: Seq<(u32, CompileLink)>,
    outgoing: Seq<(u32, CompileLink)>,
    id: nat,
    delay: u8,
    powered: bool,
) -> Seq<u8> {
    wire_text(id) + repeater_head(
        id,
        delay,
        powered,
        locker_within(nodes, outgoing, outgoing.len()),
        locking_within(incoming, incoming.len()),
    ) + text(" (.i_clk(tick), .i_in(") + inputs_text(
        nodes,
        incoming,
        LinkType::Default,
        incoming.len(),
    ) + text("), .i_lock(") + inputs_text(nodes, incoming, LinkType::Side, incoming.len())
        + output_port(id)
}

/// The head of a torch: it starts in the state opposite to the one it was built in.
pub open spec fn torch_head(id: nat, powered: bool) -> Seq<u8> {
    text("\ttorch #(.state(1'b") + flag_text(!powered) + text(")) c") + digits(id) + text(
        " (.i_clk(tick), .i_in(",
    )
}

/// A torch: its wire, and the primitive fed by the default port.
pub open spec fn torch_text(
    nodes: Seq<CompileNode>,
    incoming: Seq<(u32, CompileLink)>,
    id: nat,
    powered: bool,
) -> Seq<u8> {
    wire_text(id) + torch_head(id, powered) + inputs_text(
        nodes,
        incoming,
        LinkType::Default,
        incoming.len(),
    ) + output_port(id)
}

/// What a node puts into the module after the comment on its block.
pub open spec fn kind_text(
    nodes: Seq<CompileNode>,
    incoming: Seq<(u32, CompileLink)>,
    outgoing: Seq<(u32, CompileLink)>,
    id: int,
    input_id: nat,
    output_id: nat,
) -> Seq<u8> {
    match nodes[id].ty {
        NodeType::Lever | NodeType::PressurePlate | NodeType::Button => source_text(
            id as nat,
            input_id,
        ),
        NodeType::Lamp | NodeType::Trapdoor => sink_text(nodes, incoming, output_id),
        NodeType::Wire => hex_text(nodes, incoming, output_id),
        NodeType::Repeater { delay, .. } => repeater_text(
            nodes,
            incoming,
            outgoing,
            id as nat,
            delay,
            nodes[id].state.powered,
        ),
        NodeType::Torch => torch_text(nodes, incoming, id as nat, nodes[id].state.powered),
        NodeType::FPGAComparator { mode, outputs, side, back } => comparator_text(
            nodes,
            incoming,
            id as nat,
            mode,
            outputs,
            side,
            back,
            nodes[id].state.output_strength,
        ),
        _ => Seq::empty(),
    }
}

/// What node `id` puts into the module.
pub open spec fn node_text(
    nodes: Seq<CompileNode>,
    incoming: Seq<(u32, CompileLink)>,
    outgoing: Seq<(u32, CompileLink)>,
    id: int,
    input_id: nat,
    output_id: nat,
) -> Seq<u8> {
    position_text(nodes[id]) + kind_text(nodes, incoming, outgoing, id, input_id, output_id)
}

/// What the first `n` nodes put into the module, in the order of their indices.
pub open spec fn body_text(graph: CompileGraph, n: nat) -> Seq<u8>
    decreases n,
{
    if n == 0 || n > graph.nodes().len() {
        Seq::empty()
    } else {
        body_text(graph, (n - 1) as nat) + node_text(
            graph.nodes(),
            graph.incoming(n - 1),
            graph.outgoing(n - 1),
            n - 1,
            inputs_before(graph.nodes(), (n - 1) as nat),
            outputs_before(graph.nodes(), (n - 1) as nat),
        )
    }
}

/// The head of the module: its name, its two parameters and its three ports.
pub open spec fn header_text() -> Seq<u8> {
    text("module RoC #(\n    parameter OUTPUTS,\n    parameter INPUTS\n) (\n    input                   tick,\n    input   [INPUTS-1:0]    inputs,\n    output  [OUTPUTS-1:0]   outputs\n);\n\n")
}

/// The hardware description of a graph: the head, the nodes, and the closing line.
pub open spec fn module_text(graph: CompileGraph) -> Seq<u8> {
    header_text() + body_text(graph, graph.nodes().len()) + text("endmodule\n")
}

fn push_wire_decl(out: &mut Vec<u8>, id: u32)
    ensures
        final(out)@ == old(out)@ + wire_text(id as nat),
{
    push_text(out, "\twire ");
    push_wire(out, id);
    push_text(out, ";\n");
    assert(out@ =~= old(out)@ + wire_text(id as nat));
}

#[verifier::rlimit(40)]
fn push_source(out: &mut Vec<u8>, id: u32, input_id: u64)
    ensures
        final(out)@ == old(out)@ + source_text(id as nat, input_id as nat),
{
    push_text(out, "\twire ");
    push_wire(out, id);
    push_text(out, " = inputs[");
    push_decimal(out, input_id);
    push_text(out, "];\n");
    assert(out@ =~= old(out)@ + source_text(id as nat, input_id as nat));
}

#[verifier::rlimit(40)]
fn push_sink(out: &mut Vec<u8>, graph: &CompileGraph, links: &Vec<(u32, CompileLink)>, output_id: u64)
    requires
        graph.wf(),
    ensures
        final(out)@ == old(out)@ + sink_text(graph.nodes(), links@, output_id as nat),
{
    push_text(out, "\tassign outputs[");
    push_decimal(out, output_id);
    push_text(out, "] = (");
    push_inputs(out, graph, links, LinkType::Default);
    push_text(out, ");\n");
    assert(out@ =~= old(out)@ + sink_text(graph.nodes(), links@, output_id as nat));
}

#[verifier::rlimit(40)]
fn push_slice(out: &mut Vec<u8>, id: u32, index: u64)
    requires
        index <= 16,
    ensures
        final(out)@ == old(out)@ + slice_text(id as nat, index as nat),
{
    push_wire(out, id);
    push_text(out, "[");
    push_decimal(out, index + 3);
    push_text(out, ":");
    push_decimal(out, index);
    push_text(out, "]");
    assert(out@ =~= old(out)@ + slice_text(id as nat, index as nat));
}

fn push_hex_source(out: &mut Vec<u8>, graph: &CompileGraph, links: &Vec<(u32, CompileLink)>)
    requires
        graph.wf(),
    ensures
        final(out)@ == old(out)@ + hex_source(graph.nodes(), links@),
{
    let mut k: usize = 0;
    while k < links.len()
        invariant
            graph.wf(),
            k <= links.len(),
            out@ == old(out)@,
            first_bundle(graph.nodes(), links@, 0) == first_bundle(graph.nodes(), links@, k as nat),
        decreases links.len() - k,
    {
        let (source, link) = links[k];
        if is_port(&link, LinkType::Default) {
            match graph.node(source) {
                Some(node) => {
                    match levels_of(&node.ty) {
                        Some(levels) => {
                            let index = ss_to_idx(levels, link.ss);
                            if index + 3 < count_below(levels, 16) {
                                push_slice(out, source, index as u64);
                            } else {
                                push_text(out, "4'b0000");
                            }
                            return ;
                        },
                        None => {},
                    }
                },
                None => {},
            }
        }
        k += 1;
    }
    push_text(out, "4'b0000");
}

#[verifier::rlimit(40)]
fn push_hex(out: &mut Vec<u8>, graph: &CompileGraph, links: &Vec<(u32, CompileLink)>, output_id: u64)
    requires
        graph.wf(),
        output_id <= u64::MAX - 3,
    ensures
        final(out)@ == old(out)@ + hex_text(graph.nodes(), links@, output_id as nat),
{
    push_text(out, "\tassign outputs[");
    push_decimal(out, output_id + 3);
    push_text(out, ":");
    push_decimal(out, output_id);
    push_text(out, "] = ");
    push_hex_source(out, graph, links);
    push_text(out, ";\n");
    assert(out@ =~= old(out)@ + hex_text(graph.nodes(), links@, output_id as nat));
}

fn push_repeater_state(out: &mut Vec<u8>, delay: u8, powered: bool)
    ensures
        final(out)@ == old(out)@ + repeater_state(delay, powered),
{
    push_text(out, "\trepeater #(.t(");
    push_decimal(out, delay as u64);
    push_text(out, "), .state(1'b");
    push_flag(out, powered);
    assert(out@ =~= old(out)@ + repeater_state(delay, powered));
}

#[verifier::rlimit(40)]
fn push_repeater_locks(out: &mut Vec<u8>, id: u32, locker: bool, locking: bool)
    ensures
        final(out)@ == old(out)@ + repeater_locks(id as nat, locker, locking),
{
    push_text(out, "), .lock_out(");
    push_flag(out, locker);
    push_text(out, "), .lockable(");
    push_flag(out, locking);
    push_text(out, ")) c");
    push_decimal(out, id as u64);
    assert(out@ =~= old(out)@ + repeater_locks(id as nat, locker, locking));
}

fn push_repeater_head(out: &mut Vec<u8>, id: u32, delay: u8, powered: bool, locker: bool, locking: bool)
    ensures
        final(out)@ == old(out)@ + repeater_head(id as nat, delay, powered, locker, locking),
{
    push_repeater_state(out, delay, powered);
    push_repeater_locks(out, id, locker, locking);
    proof {
        lemma_append(
            old(out)@,
            repeater_state(delay, powered),
            repeater_locks(id as nat, locker, locking),
        );
    }
}

fn push_output_port(out: &mut Vec<u8>, id: u32)
    ensures
        final(out)@ == old(out)@ + output_port(id as nat),
{
    push_text(out, "), .o_out(");
    push_wire(out, id);
    push_text(out, "));\n");
    assert(out@ =~= old(out)@ + output_port(id as nat));
}

fn push_repeater(
    out: &mut Vec<u8>,
    graph: &CompileGraph,
    incoming: &Vec<(u32, CompileLink)>,
    id: u32,
    delay: u8,
    powered: bool,
)
    requires
        graph.wf(),
        incoming@ == graph.incoming(id as int),
    ensures
        final(out)@ == old(out)@ + repeater_text(
            graph.nodes(),
            graph.incoming(id as int),
            graph.outgoing(id as int),
            id as nat,
            delay,
            powered,
        ),
{
    let locker = is_locker(graph, id);
    let locking = is_locking(graph, id);
    let ghost t1 = wire_text(id as nat);
    let ghost t2 = repeater_head(id as nat, delay, powered, locker, locking);
    let ghost t3 = text(" (.i_clk(tick), .i_in(");
    let ghost t4 = inputs_text(graph.nodes(), incoming@, LinkType::Default, incoming@.len());
    let ghost t5 = text("), .i_lock(");
    let ghost t6 = inputs_text(graph.nodes(), incoming@, LinkType::Side, incoming@.len());
    let ghost t7 = output_port(id as nat);
    push_wire_decl(out, id);
    push_repeater_head(out, id, delay, powered, locker, locking);
    push_text(out, " (.i_clk(tick), .i_in(");
    push_inputs(out, graph, incoming, LinkType::Default);
    push_text(out, "), .i_lock(");
    push_inputs(out, graph, incoming, LinkType::Side);
    push_output_port(out, id);
    proof {
        lemma_append(old(out)@, t1, t2);
        lemma_append(old(out)@, t1 + t2, t3);
        lemma_append(old(out)@, t1 + t2 + t3, t4);
        lemma_append(old(out)@, t1 + t2 + t3 + t4, t5);
        lemma_append(old(out)@, t1 + t2 + t3 + t4 + t5, t6);
        lemma_append(old(out)@, t1 + t2 + t3 + t4 + t5 + t6, t7);
    }
}

fn push_torch_head(out: &mut Vec<u8>, id: u32, powered: bool)
    ensures
        final(out)@ == old(out)@ + torch_head(id as nat, powered),
{
    push_text(out, "\ttorch #(.state(1'b");
    push_flag(out, !powered);
    push_text(out, ")) c");
    push_decimal(out, id as u64);
    push_text(out, " (.i_clk(tick), .i_in(");
    assert(out@ =~= old(out)@ + torch_head(id as nat, powered));
}

fn push_torch(out: &mut Vec<u8>, graph: &CompileGraph, incoming: &Vec<(u32, CompileLink)>, id: u32, powered: bool)
    requires
        graph.wf(),
    ensures
        final(out)@ == old(out)@ + torch_text(graph.nodes(), incoming@, id as nat, powered),
{
    let ghost t1 = wire_text(id as nat);
    let ghost t2 = torch_head(id as nat, powered);
    let ghost t3 = inputs_text(graph.nodes(), incoming@, LinkType::Default, incoming@.len());
    let ghost t4 = output_port(id as nat);
    push_wire_decl(out, id);
    push_torch_head(out, id, powered);
    push_inputs(out, graph, incoming, LinkType::Default);
    push_output_port(out, id);
    proof {
        lemma_append(old(out)@, t1, t2);
        lemma_append(old(out)@, t1 + t2, t3);
        lemma_append(old(out)@, t1 + t2 + t3, t4);
    }
}

fn push_kind(
    out: &mut Vec<u8>,
    graph: &CompileGraph,
    id: u32,
    node: &CompileNode,
    input_id: u64,
    output_id: u64,
)
    requires
        graph.wf(),
        id < graph.nodes().len(),
        *node == graph.nodes()[id as int],
        output_id <= u64::MAX - 3,
    ensures
        final(out)@ == old(out)@ + kind_text(
            graph.nodes(),
            graph.incoming(id as int),
            graph.outgoing(id as int),
            id as int,
            input_id as nat,
            output_id as nat,
        ),
{
    match node.ty {
        NodeType::Lever | NodeType::PressurePlate | NodeType::Button => {
            push_source(out, id, input_id);
        },
        NodeType::Lamp | NodeType::Trapdoor => {
            let links = graph.links_into(id);
            push_sink(out, graph, &links, output_id);
        },
        NodeType::Wire => {
            let links = graph.links_into(id);
            push_hex(out, graph, &links, output_id);
        },
        NodeType::Repeater { delay, .. } => {
            let links = graph.links_into(id);
            push_repeater(out, graph, &links, id, delay, node.state.powered);
        },
        NodeType::Torch => {
            let links = graph.links_into(id);
            push_torch(out, graph, &links, id, node.state.powered);
        },
        NodeType::FPGAComparator { mode, outputs, side, back } => {
            let links = graph.links_into(id);
            push_comparator(
                out,
                graph,
                &links,
                id,
                mode,
                outputs,
                side,
                back,
                node.state.output_strength,
            );
        },
        _ => {
            proof {
                lemma_append_nothing(old(out)@);
            }
        },
    }
}

/// Writes the hardware description of a graph: one module, `RoC`, with the parameters
/// `OUTPUTS` and `INPUTS`, the clock `tick` and the two packed vectors. The nodes follow
/// in the order of their indices; inputs and outputs take the bits of their vectors in
/// that order.
pub fn generate_verilog(graph: &CompileGraph) -> (verilog: Vec<u8>)
    requires
        graph.wf(),
    ensures
        verilog@ == module_text(*graph),
{
    let mut out: Vec<u8> = Vec::new();
    push_text(&mut out, "module RoC #(\n    parameter OUTPUTS,\n    parameter INPUTS\n) (\n    input                   tick,\n    input   [INPUTS-1:0]    inputs,\n    output  [OUTPUTS-1:0]   outputs\n);\n\n");
    assert(out@ =~= header_text());
    let count = graph.node_count();
    let mut input_id: u64 = 0;
    let mut output_id: u64 = 0;
    let mut i: u32 = 0;
    proof {
        lemma_append_nothing(header_text());
    }
    while i < count
        invariant
            graph.wf(),
            count == graph.nodes().len(),
            i <= count,
            input_id == inputs_before(graph.nodes(), i as nat),
            output_id == outputs_before(graph.nodes(), i as nat),
            out@ == header_text() + body_text(*graph, i as nat),
        decreases count - i,
    {
        proof {
            lemma_counts_bounded(graph.nodes(), i as nat);
        }
        match graph.node(i) {
            Some(node) => {
                let ghost t1 = position_text(node);
                let ghost t2 = kind_text(
                    graph.nodes(),
                    graph.incoming(i as int),
                    graph.outgoing(i as int),
                    i as int,
                    input_id as nat,
                    output_id as nat,
                );
                let ghost before = out@;
                push_position(&mut out, &node);
                push_kind(&mut out, graph, i, &node, input_id, output_id);
                proof {
                    lemma_append(before, t1, t2);
                    lemma_append(header_text(), body_text(*graph, i as nat), t1 + t2);
                }
                match node.ty {
                    NodeType::Lever | NodeType::PressurePlate | NodeType::Button => {
                        input_id += 1;
                    },
                    NodeType::Lamp | NodeType::Trapdoor => {
                        output_id += 1;
                    },
                    NodeType::Wire => {
                        output_id += 4;
                    },
                    _ => {},
                }
            },
            None => {},
        }
        i += 1;
    }
    push_text(&mut out, "endmodule\n");
    out
}

} // verus!
