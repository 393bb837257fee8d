//! A laid-out mind map: the plan of its nodes and links, joined with their
//! coordinates.

use vstd::prelude::*;
use crate::board_text::LabelBox;
use crate::element::{copy_list, WBounds, WPoint};
use crate::mindmap::{tree_count, MindmapNodeInput, PALETTE_LEN};
use crate::mindmap_plan::{link_views, node_views, plan, plan_links, plan_nodes, LinkV, MindmapPlan, NodeV};

verus! {

/// Where a node goes, and where its label goes in it.
#[derive(Clone, Copy, Debug)]
pub struct NodeBox<F> {
    pub bounds: WBounds<F>,
    pub label: LabelBox<F>,
}

/// The course of a link: its points relative to its box.
#[derive(Debug)]
pub struct LinkPath<F> {
    pub points: Vec<WPoint<F>>,
    pub bounds: WBounds<F>,
}

/// A laid-out node.
#[derive(Debug)]
pub struct NodeSpec<F> {
    pub place: NodeBox<F>,
    pub text: String,
    /// 0 for the root.
    pub level: usize,
    pub stroke: u32,
    pub fill: u32,
}

/// A laid-out link.
#[derive(Debug)]
pub struct LinkSpec<F> {
    pub path: LinkPath<F>,
    pub stroke: u32,
}

/// A laid-out mind map; the root is the first node.
#[derive(Debug)]
pub struct MindmapLayout<F> {
    pub nodes: Vec<NodeSpec<F>>,
    pub links: Vec<LinkSpec<F>>,
}

/// Whether a laid-out node is the planned node `n` at the place `b`.
pub open spec fn laid_node<F>(s: NodeSpec<F>, n: NodeV, b: NodeBox<F>) -> bool {
    s.place == b && s.text@ == n.text && s.level as nat == n.level && s.stroke == n.stroke && s.fill
        == n.fill
}

/// Whether a laid-out link is the planned link `l` along the path `p`.
pub open spec fn laid_link<F>(s: LinkSpec<F>, l: LinkV, p: LinkPath<F>) -> bool {
    s.path.points@ == p.points@ && s.path.bounds == p.bounds && s.stroke == l.stroke
}

/// Lays out a mind map with the given coordinates, in the order of its plan.
pub fn layout<F: Copy>(
    root: &MindmapNodeInput,
    boxes: &Vec<NodeBox<F>>,
    paths: &Vec<LinkPath<F>>,
) -> (r: MindmapLayout<F>)
    requires
        tree_count(*root) < usize::MAX - PALETTE_LEN,
        boxes@.len() == plan_nodes(*root).len(),
        paths@.len() == plan_links(*root).len(),
    ensures
        r.nodes@.len() == plan_nodes(*root).len(),
        r.links@.len() == plan_links(*root).len(),
        forall|i: int|
            0 <= i < r.nodes@.len() ==> laid_node(
                #[trigger] r.nodes@[i],
                plan_nodes(*root)[i],
                boxes@[i],
            ),
        forall|i: int|
            0 <= i < r.links@.len() ==> laid_link(
                #[trigger] r.links@[i],
                plan_links(*root)[i],
                paths@[i],
            ),
{
    let p: MindmapPlan = plan(root);
    let mut nodes: Vec<NodeSpec<F>> = Vec::new();
    let mut links: Vec<LinkSpec<F>> = Vec::new();
    let mut i: usize = 0;
    while i < p.nodes.len()
        invariant
            i <= p.nodes.len(),
            node_views(p.nodes@) == plan_nodes(*root),
            boxes@.len() == p.nodes@.len(),
            nodes@.len() == i,
            forall|k: int|
                0 <= k < i ==> laid_node(#[trigger] nodes@[k], plan_nodes(*root)[k], boxes@[k]),
        decreases p.nodes.len() - i,
    {
        assert(plan_nodes(*root)[i as int] == p.nodes@[i as int]@);
        nodes.push(
            NodeSpec {
                place: boxes[i],
                text: p.nodes[i].text.clone(),
                level: p.nodes[i].level,
                stroke: p.nodes[i].stroke,
                fill: p.nodes[i].fill,
            },
        );
        i += 1;
    }
    let mut k: usize = 0;
    while k < p.links.len()
        invariant
            k <= p.links.len(),
            link_views(p.links@) == plan_links(*root),
            paths@.len() == p.links@.len(),
            links@.len() == k,
            forall|j: int|
                0 <= j < k ==> laid_link(#[trigger] links@[j], plan_links(*root)[j], paths@[j]),
        decreases p.links.len() - k,
    {
        assert(plan_links(*root)[k as int] == p.links@[k as int]@);
        links.push(
            LinkSpec {
                path: LinkPath { points: copy_list(&paths[k].points), bounds: paths[k].bounds },
                stroke: p.links[k].stroke,
            },
        );
        k += 1;
    }
    MindmapLayout { nodes, links }
}

} // verus!
