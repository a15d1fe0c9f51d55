//! The compile graph: typed nodes joined by attenuating links, stored in a
//! `petgraph` stable graph.

use vstd::prelude::*;
use petgraph::stable_graph::{NodeIndex, StableGraph};
use petgraph::visit::EdgeRef;
use petgraph::{Directed, Incoming, Outgoing};
use crate::blocks::{BlockPos, ComparatorMode};

verus! {

/// What a node of the graph computes.
#[derive(Clone, Copy, Debug, PartialEq, Eq, Structural)]
pub enum NodeType {
    /// A delay element of 1 to 4 ticks, lockable through its side input.
    Repeater { delay: u8, facing_diode: bool },
    /// An inverter with one tick of delay.
    Torch,
    /// An analog comparator as the front end delivers it.
    Comparator { mode: ComparatorMode, far_input: Option<u8>, facing_diode: bool, states: Option<u16> },
    /// A comparator reduced to the finite level sets of its ports.
    FPGAComparator { mode: ComparatorMode, outputs: u16, side: u16, back: u16 },
    Lamp,
    Button,
    Lever,
    PressurePlate,
    Trapdoor,
    /// Redstone dust read as a four-bit display.
    Wire,
    /// A source of fixed strength.
    Constant,
}

/// The state a node has when the graph is built.
#[derive(Clone, Copy, Debug, PartialEq, Eq, Structural)]
pub struct NodeState {
    pub powered: bool,
    pub repeater_locked: bool,
    pub output_strength: u8,
}

/// A node: its kind, the world block it stands for with its state number, and its state.
#[derive(Clone, Copy, Debug)]
pub struct CompileNode {
    pub ty: NodeType,
    pub block: Option<(BlockPos, u32)>,
    pub state: NodeState,
}

/// The port of the target that a link feeds.
#[derive(Clone, Copy, Debug, PartialEq, Eq, Structural)]
pub enum LinkType {
    Default,
    Side,
}

/// A link: the port it feeds and the signal strength lost along it, 0 to 15.
#[derive(Clone, Copy, Debug, PartialEq, Eq, Structural)]
pub struct CompileLink {
    pub ty: LinkType,
    pub ss: u8,
}

#[verifier::external_type_specification]
#[verifier::external_body]
#[verifier::reject_recursive_types(N)]
#[verifier::reject_recursive_types(E)]
#[verifier::reject_recursive_types(Ty)]
#[verifier::reject_recursive_types(Ix)]
pub struct ExStableGraph<N, E, Ty, Ix>(StableGraph<N, E, Ty, Ix>);

#[verifier::external_type_specification]
#[verifier::external_body]
pub struct ExDirected(Directed);

/// The node slots of a stable graph by index: `Some` where a node lives, `None` where a
/// slot is vacant.
pub uninterp spec fn graph_nodes(g: &StableGraph<CompileNode, CompileLink, Directed, u32>) -> Seq<Option<CompileNode>>;

/// The links into the node with index `node`, each with its source, in the order in which a
/// walk over the incoming links yields them.
pub uninterp spec fn graph_incoming(g: &StableGraph<CompileNode, CompileLink, Directed, u32>, node: int) -> Seq<(u32, CompileLink)>;

/// The links out of the node with index `node`, each with its target, in the order in which
/// a walk over the outgoing links yields them.
pub uninterp spec fn graph_outgoing(g: &StableGraph<CompileNode, CompileLink, Directed, u32>, node: int) -> Seq<(u32, CompileLink)>;

/// The number of link slots that a stable graph has in use or in reserve.
pub uninterp spec fn graph_link_slots(g: &StableGraph<CompileNode, CompileLink, Directed, u32>) -> nat;

/// `StableGraph::default`: a graph without slots and without links.
#[verifier::external_body]
fn raw_new() -> (g: StableGraph<CompileNode, CompileLink, Directed, u32>)
    ensures
        graph_nodes(&g).len() == 0,
        graph_link_slots(&g) == 0,
        forall|i: int| (#[trigger] graph_incoming(&g, i)).len() == 0,
        forall|i: int| (#[trigger] graph_outgoing(&g, i)).len() == 0,
{
    StableGraph::default()
}

/// `StableGraph::add_node`: the node takes a vacant slot or a new one at the end; no
/// other slot and no link changes. It panics when a new slot would get the last index,
/// which `requires` leaves out.
#[verifier::external_body]
fn raw_add_node(g: &mut StableGraph<CompileNode, CompileLink, Directed, u32>, node: CompileNode) -> (i: u32)
    requires
        graph_nodes(old(g)).len() < u32::MAX,
    ensures
        i <= graph_nodes(old(g)).len(),
        i < graph_nodes(old(g)).len() ==> graph_nodes(old(g))[i as int] is None,
        graph_nodes(final(g)) == if i < graph_nodes(old(g)).len() {
            graph_nodes(old(g)).update(i as int, Some(node))
        } else {
            graph_nodes(old(g)).push(Some(node))
        },
        graph_link_slots(final(g)) == graph_link_slots(old(g)),
        forall|j: int| #[trigger] graph_incoming(final(g), j) == graph_incoming(old(g), j),
        forall|j: int| #[trigger] graph_outgoing(final(g), j) == graph_outgoing(old(g), j),
{
    g.add_node(node).index() as u32
}

/// `StableGraph::add_edge`: the new link comes first in the walk out of `a` and in the
/// walk into `b`; nothing else changes. It panics when an end is no live node or when a
/// new link slot would get the last index, which `requires` leaves out.
#[verifier::external_body]
fn raw_add_edge(g: &mut StableGraph<CompileNode, CompileLink, Directed, u32>, a: u32, b: u32, link: CompileLink)
    requires
        a < graph_nodes(old(g)).len(),
        b < graph_nodes(old(g)).len(),
        graph_nodes(old(g))[a as int] is Some,
        graph_nodes(old(g))[b as int] is Some,
        graph_link_slots(old(g)) < u32::MAX,
    ensures
        graph_nodes(final(g)) == graph_nodes(old(g)),
        graph_link_slots(final(g)) <= graph_link_slots(old(g)) + 1,
        graph_incoming(final(g), b as int) == seq![(a, link)] + graph_incoming(old(g), b as int),
        graph_outgoing(final(g), a as int) == seq![(b, link)] + graph_outgoing(old(g), a as int),
        forall|j: int| j != b ==> #[trigger] graph_incoming(final(g), j) == graph_incoming(old(g), j),
        forall|j: int| j != a ==> #[trigger] graph_outgoing(final(g), j) == graph_outgoing(old(g), j),
{
    g.add_edge(NodeIndex::new(a as usize), NodeIndex::new(b as usize), link);
}

/// `StableGraph::node_weight`: the node in slot `i`, if one lives there.
#[verifier::external_body]
fn raw_node(g: &StableGraph<CompileNode, CompileLink, Directed, u32>, i: u32) -> (node: Option<CompileNode>)
    ensures
        node == if i < graph_nodes(g).len() {
            graph_nodes(g)[i as int]
        } else {
            None
        },
{
    g.node_weight(NodeIndex::new(i as usize)).copied()
}

/// Assignment through `IndexMut` of `StableGraph`: replaces the node in slot `i` and
/// leaves every link in place. It panics on a vacant slot, which `requires` leaves out.
#[verifier::external_body]
fn raw_set_node(g: &mut StableGraph<CompileNode, CompileLink, Directed, u32>, i: u32, node: CompileNode)
    requires
        i < graph_nodes(old(g)).len(),
        graph_nodes(old(g))[i as int] is Some,
    ensures
        graph_nodes(final(g)) == graph_nodes(old(g)).update(i as int, Some(node)),
        graph_link_slots(final(g)) == graph_link_slots(old(g)),
        forall|j: int| #[trigger] graph_incoming(final(g), j) == graph_incoming(old(g), j),
        forall|j: int| #[trigger] graph_outgoing(final(g), j) == graph_outgoing(old(g), j),
{
    g[NodeIndex::new(i as usize)] = node;
}

/// `StableGraph::edges_directed` with `Incoming`: the walk over the links into `i`, each
/// handed out as its source and its weight; empty where no node lives in slot `i`.
#[verifier::external_body]
fn raw_incoming(g: &StableGraph<CompileNode, CompileLink, Directed, u32>, i: u32) -> (links: Vec<(u32, CompileLink)>)
    ensures
        links@ == graph_incoming(g, i as int),
{
    g.edges_directed(NodeIndex::new(i as usize), Incoming).map(|e| (e.source().index() as u32, *e.weight())).collect()
}

/// `StableGraph::edges_directed` with `Outgoing`: the walk over the links out of `i`, each
/// handed out as its target and its weight; empty where no node lives in slot `i`.
#[verifier::external_body]
fn raw_outgoing(g: &StableGraph<CompileNode, CompileLink, Directed, u32>, i: u32) -> (links: Vec<(u32, CompileLink)>)
    ensures
        links@ == graph_outgoing(g, i as int),
{
    g.edges_directed(NodeIndex::new(i as usize), Outgoing).map(|e| (e.target().index() as u32, *e.weight())).collect()
}

/// A directed multigraph of compile nodes whose indices never change: nodes are only
/// added, and each new node gets the next index.
pub struct CompileGraph {
    inner: StableGraph<CompileNode, CompileLink, Directed, u32>,
    size: u32,
    links: u32,
}

impl CompileGraph {
    /// What every graph built through this interface satisfies: no slot of the store is
    /// vacant, and the link counter bounds the link slots in use.
    pub closed spec fn wf(&self) -> bool {
        &&& graph_nodes(&self.inner).len() == self.size
        &&& forall|i: int| 0 <= i < self.size ==> (#[trigger] graph_nodes(&self.inner)[i]) is Some
        &&& graph_link_slots(&self.inner) <= self.links
    }

    /// The nodes by index.
    pub closed spec fn nodes(&self) -> Seq<CompileNode> {
        Seq::new(self.size as nat, |i: int| graph_nodes(&self.inner)[i]->0)
    }

    /// The links into node `i`, newest first, each with the index of its source.
    pub closed spec fn incoming(&self, i: int) -> Seq<(u32, CompileLink)> {
        graph_incoming(&self.inner, i)
    }

    /// The links out of node `i`, newest first, each with the index of its target.
    pub closed spec fn outgoing(&self, i: int) -> Seq<(u32, CompileLink)> {
        graph_outgoing(&self.inner, i)
    }

    /// How many links were added.
    pub closed spec fn spec_link_count(&self) -> nat {
        self.links as nat
    }

    /// The empty graph.
    pub fn new() -> (g: CompileGraph)
        ensures
            g.wf(),
            g.nodes().len() == 0,
            g.spec_link_count() == 0,
            forall|i: int| (#[trigger] g.incoming(i)).len() == 0,
            forall|i: int| (#[trigger] g.outgoing(i)).len() == 0,
    {
        CompileGraph { inner: raw_new(), size: 0, links: 0 }
    }

    /// The number of nodes, which is also the index the next node gets.
    pub fn node_count(&self) -> (n: u32)
        ensures
            n == self.nodes().len(),
    {
        self.size
    }

    /// One more than the largest node index in use.
    pub fn node_bound(&self) -> (n: usize)
        ensures
            n == self.nodes().len(),
    {
        self.size as usize
    }

    pub fn link_count(&self) -> (n: u32)
        ensures
            n == self.spec_link_count(),
    {
        self.links
    }

    /// Adds a node and returns its index.
    pub fn add_node(&mut self, node: CompileNode) -> (i: u32)
        requires
            old(self).wf(),
            old(self).nodes().len() < u32::MAX,
        ensures
            final(self).wf(),
            i == old(self).nodes().len(),
            final(self).nodes() == old(self).nodes().push(node),
            final(self).spec_link_count() == old(self).spec_link_count(),
            forall|j: int| #[trigger] final(self).incoming(j) == old(self).incoming(j),
            forall|j: int| #[trigger] final(self).outgoing(j) == old(self).outgoing(j),
    {
        let i = raw_add_node(&mut self.inner, node);
        self.size = self.size + 1;
        proof {
            assert(self.nodes() =~= old(self).nodes().push(node));
        }
        i
    }

    /// Adds a link from `source` to `target`. It becomes the first link of both ends.
    pub fn add_link(&mut self, source: u32, target: u32, link: CompileLink)
        requires
            old(self).wf(),
            source < old(self).nodes().len(),
            target < old(self).nodes().len(),
            old(self).spec_link_count() < u32::MAX,
        ensures
            final(self).wf(),
            final(self).nodes() == old(self).nodes(),
            final(self).spec_link_count() == old(self).spec_link_count() + 1,
            final(self).incoming(target as int) == seq![(source, link)] + old(self).incoming(
                target as int,
            ),
            final(self).outgoing(source as int) == seq![(target, link)] + old(self).outgoing(
                source as int,
            ),
            forall|j: int|
                j != target ==> #[trigger] final(self).incoming(j) == old(self).incoming(j),
            forall|j: int|
                j != source ==> #[trigger] final(self).outgoing(j) == old(self).outgoing(j),
    {
        raw_add_edge(&mut self.inner, source, target, link);
        self.links = self.links + 1;
        proof {
            assert(self.nodes() =~= old(self).nodes());
        }
    }

    /// The node with index `i`, if there is one.
    pub fn node(&self, i: u32) -> (node: Option<CompileNode>)
        requires
            self.wf(),
        ensures
            node == if i < self.nodes().len() {
                Some(self.nodes()[i as int])
            } else {
                None
            },
    {
        raw_node(&self.inner, i)
    }

    /// Gives node `i` another kind; block, state and links stay.
    pub fn set_node_type(&mut self, i: u32, ty: NodeType)
        requires
            old(self).wf(),
            i < old(self).nodes().len(),
        ensures
            final(self).wf(),
            final(self).nodes() == old(self).nodes().update(
                i as int,
                (CompileNode { ty, ..old(self).nodes()[i as int] }),
            ),
            final(self).spec_link_count() == old(self).spec_link_count(),
            forall|j: int| #[trigger] final(self).incoming(j) == old(self).incoming(j),
            forall|j: int| #[trigger] final(self).outgoing(j) == old(self).outgoing(j),
    {
        let current = raw_node(&self.inner, i);
        match current {
            Some(node) => {
                let changed = CompileNode { ty, block: node.block, state: node.state };
                raw_set_node(&mut self.inner, i, changed);
                proof {
                    assert(self.nodes() =~= old(self).nodes().update(i as int, changed));
                }
            },
            None => {},
        }
    }

    /// The links into node `i`, newest first.
    pub fn links_into(&self, i: u32) -> (links: Vec<(u32, CompileLink)>)
        ensures
            links@ == self.incoming(i as int),
    {
        raw_incoming(&self.inner, i)
    }

    /// The links out of node `i`, newest first.
    pub fn links_out_of(&self, i: u32) -> (links: Vec<(u32, CompileLink)>)
        ensures
            links@ == self.outgoing(i as int),
    {
        raw_outgoing(&self.inner, i)
    }
}

} // verus!
