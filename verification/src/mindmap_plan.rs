//! The plan of a mind map: its wings, its nodes in drawing order and its links.

use vstd::prelude::*;
use crate::mindmap::{
    count_leaves, fill_table, forest_count, forest_depth, forest_leaves, palette_fill,
    palette_stroke, stroke_table, tree_count, tree_depth, tree_leaves, MindmapNodeInput,
    PALETTE_LEN, ROOT_FILL, ROOT_STROKE,
};

verus! {

/// A node to draw: its text, its distance from the root and its colours.
#[derive(Debug, PartialEq)]
pub struct PlannedNode {
    pub text: String,
    pub level: usize,
    pub stroke: u32,
    pub fill: u32,
}

/// A link to draw: the places of its two nodes in the node list, and its
/// colour.
#[derive(Clone, Copy, Debug, PartialEq, Eq, Structural)]
pub struct PlannedLink {
    pub parent: usize,
    pub child: usize,
    pub stroke: u32,
}

/// Everything about a mind map but its coordinates. The root is node 0; then
/// come the right wing and the left wing, children before their parents.
#[derive(Debug, PartialEq)]
pub struct MindmapPlan {
    pub nodes: Vec<PlannedNode>,
    pub links: Vec<PlannedLink>,
    /// The places of the root's children that grow to the right, in order.
    pub right: Vec<usize>,
    /// The places of the root's children that grow to the left, in order.
    pub left: Vec<usize>,
}

/// The value of a [`PlannedNode`].
pub ghost struct NodeV {
    pub text: Seq<char>,
    pub level: nat,
    pub stroke: u32,
    pub fill: u32,
}

/// The value of a [`PlannedLink`].
pub ghost struct LinkV {
    pub parent: int,
    pub child: int,
    pub stroke: u32,
}

impl View for PlannedNode {
    type V = NodeV;

    open spec fn view(&self) -> NodeV {
        NodeV { text: self.text@, level: self.level as nat, stroke: self.stroke, fill: self.fill }
    }
}

impl View for PlannedLink {
    type V = LinkV;

    open spec fn view(&self) -> LinkV {
        LinkV { parent: self.parent as int, child: self.child as int, stroke: self.stroke }
    }
}

/// The values of a list of nodes.
pub open spec fn node_views(s: Seq<PlannedNode>) -> Seq<NodeV> {
    Seq::new(s.len(), |i: int| s[i]@)
}

/// The values of a list of links.
pub open spec fn link_views(s: Seq<PlannedLink>) -> Seq<LinkV> {
    Seq::new(s.len(), |i: int| s[i]@)
}

/// The outline colour of a branch.
pub open spec fn branch_stroke(branch: nat) -> u32 {
    stroke_table()[(branch % 6) as int]
}

/// The fill colour of a branch.
pub open spec fn branch_fill(branch: nat) -> u32 {
    fill_table()[(branch % 6) as int]
}

/// How the root's children are divided: the places that grow to either side,
/// and the leaves that each side carries.
pub ghost struct Wings {
    pub right: Seq<int>,
    pub left: Seq<int>,
    pub right_weight: nat,
    pub left_weight: nat,
}

/// The division of the first `k` children: each goes to the side that carries
/// fewer leaves so far, to the right when the sides are even.
pub open spec fn wings(s: Seq<MindmapNodeInput>, k: nat) -> Wings
    decreases k,
{
    if k == 0 {
        Wings { right: Seq::empty(), left: Seq::empty(), right_weight: 0, left_weight: 0 }
    } else {
        let w = wings(s, (k - 1) as nat);
        let leaves = tree_leaves(s[k - 1]);
        if w.right_weight <= w.left_weight {
            Wings { right: w.right.push(k - 1), right_weight: w.right_weight + leaves, ..w }
        } else {
            Wings { left: w.left.push(k - 1), left_weight: w.left_weight + leaves, ..w }
        }
    }
}

/// The trees at the given places.
pub open spec fn picked(s: Seq<MindmapNodeInput>, places: Seq<int>) -> Seq<MindmapNodeInput> {
    Seq::new(places.len(), |i: int| s[places[i]])
}

/// The nodes of a tree, children before their parents.
pub open spec fn subtree_nodes(n: MindmapNodeInput, level: nat, branch: nat) -> Seq<NodeV>
    decreases n,
{
    forest_nodes(n.children@, level + 1, branch).push(
        NodeV {
            text: n.text@,
            level,
            stroke: branch_stroke(branch),
            fill: branch_fill(branch),
        },
    )
}

/// The nodes of a list of trees, one tree after another.
pub open spec fn forest_nodes(s: Seq<MindmapNodeInput>, level: nat, branch: nat) -> Seq<NodeV>
    decreases s,
{
    if s.len() == 0 {
        Seq::empty()
    } else {
        forest_nodes(s.drop_last(), level, branch) + subtree_nodes(s.last(), level, branch)
    }
}

/// The place of the `i`-th tree's own node when a list of trees is laid down
/// from place `base` on: the last of its nodes.
pub open spec fn top_place(s: Seq<MindmapNodeInput>, base: int, i: int) -> int {
    base + forest_count(s.take(i + 1)) - 1
}

/// The links from one parent to the tops of a list of trees.
pub open spec fn top_links(
    s: Seq<MindmapNodeInput>,
    base: int,
    parent: int,
    stroke: u32,
) -> Seq<LinkV> {
    Seq::new(s.len(), |i: int| LinkV { parent, child: top_place(s, base, i), stroke })
}

/// The links inside a tree whose nodes lie from place `base` on.
pub open spec fn subtree_links(n: MindmapNodeInput, base: int, stroke: u32) -> Seq<LinkV>
    decreases n,
{
    forest_links(n.children@, base, stroke) + top_links(
        n.children@,
        base,
        base + forest_count(n.children@),
        stroke,
    )
}

/// The links inside a list of trees, one tree after another.
pub open spec fn forest_links(s: Seq<MindmapNodeInput>, base: int, stroke: u32) -> Seq<LinkV>
    decreases s,
{
    if s.len() == 0 {
        Seq::empty()
    } else {
        forest_links(s.drop_last(), base, stroke) + subtree_links(
            s.last(),
            base + forest_count(s.drop_last()),
            stroke,
        )
    }
}

/// The nodes of a wing; its `i`-th tree has the colours of branch
/// `first + i`.
pub open spec fn wing_nodes(s: Seq<MindmapNodeInput>, first: nat) -> Seq<NodeV>
    decreases s.len(),
{
    if s.len() == 0 {
        Seq::empty()
    } else {
        wing_nodes(s.drop_last(), first) + subtree_nodes(s.last(), 1, (first + s.len() - 1) as nat)
    }
}

/// The links inside a wing that is laid down from place `base` on.
pub open spec fn wing_links(s: Seq<MindmapNodeInput>, first: nat, base: int) -> Seq<LinkV>
    decreases s.len(),
{
    if s.len() == 0 {
        Seq::empty()
    } else {
        wing_links(s.drop_last(), first, base) + subtree_links(
            s.last(),
            base + forest_count(s.drop_last()),
            branch_stroke((first + s.len() - 1) as nat),
        )
    }
}

/// The links from the root to the tops of a wing.
pub open spec fn root_links(s: Seq<MindmapNodeInput>, first: nat, base: int) -> Seq<LinkV> {
    Seq::new(
        s.len(),
        |i: int|
            LinkV {
                parent: 0,
                child: top_place(s, base, i),
                stroke: branch_stroke((first + i) as nat),
            },
    )
}

/// The right wing of a tree.
pub open spec fn right_wing(root: MindmapNodeInput) -> Seq<MindmapNodeInput> {
    picked(root.children@, wings(root.children@, root.children@.len()).right)
}

/// The left wing of a tree.
pub open spec fn left_wing(root: MindmapNodeInput) -> Seq<MindmapNodeInput> {
    picked(root.children@, wings(root.children@, root.children@.len()).left)
}

/// The node of the root.
pub open spec fn root_node(root: MindmapNodeInput) -> NodeV {
    NodeV { text: root.text@, level: 0, stroke: ROOT_STROKE, fill: ROOT_FILL }
}

/// The nodes of a plan.
pub open spec fn plan_nodes(root: MindmapNodeInput) -> Seq<NodeV> {
    seq![root_node(root)] + wing_nodes(right_wing(root), 0) + wing_nodes(left_wing(root), 3)
}

/// The links of a plan: those inside the wings, then those of the root.
pub open spec fn plan_links(root: MindmapNodeInput) -> Seq<LinkV> {
    let (r, l) = (right_wing(root), left_wing(root));
    let base = 1 + forest_count(r);
    wing_links(r, 0, 1) + wing_links(l, 3, base as int) + root_links(r, 0, 1) + root_links(
        l,
        3,
        base as int,
    )
}

proof fn lemma_count_step(s: Seq<MindmapNodeInput>, k: int)
    requires
        0 <= k < s.len(),
    ensures
        forest_count(s.take(k + 1)) == forest_count(s.take(k)) + tree_count(s[k]),
{
    assert(s.take(k + 1).drop_last() =~= s.take(k));
}

proof fn lemma_depth_of_child(s: Seq<MindmapNodeInput>, k: int)
    requires
        0 <= k < s.len(),
    ensures
        tree_depth(s[k]) <= forest_depth(s),
    decreases s.len(),
{
    if k + 1 < s.len() {
        lemma_depth_of_child(s.drop_last(), k);
    }
}

proof fn lemma_leaves_step(s: Seq<MindmapNodeInput>, k: int)
    requires
        0 <= k < s.len(),
    ensures
        forest_leaves(s.take(k)) + tree_leaves(s[k]) <= forest_leaves(s),
        forest_leaves(s.take(k + 1)) == forest_leaves(s.take(k)) + tree_leaves(s[k]),
    decreases s.len(),
{
    assert(s.take(k + 1).drop_last() =~= s.take(k));
    if k + 1 == s.len() {
        assert(s.take(k + 1) =~= s);
    } else {
        lemma_leaves_step(s.drop_last(), k);
        assert(s.drop_last().take(k) =~= s.take(k));
    }
}

proof fn lemma_nodes_step(s: Seq<MindmapNodeInput>, k: int, level: nat, branch: nat)
    requires
        0 <= k < s.len(),
    ensures
        forest_nodes(s.take(k + 1), level, branch) == forest_nodes(s.take(k), level, branch)
            + subtree_nodes(s[k], level, branch),
{
    assert(s.take(k + 1).drop_last() =~= s.take(k));
}

proof fn lemma_links_step(s: Seq<MindmapNodeInput>, k: int, base: int, stroke: u32)
    requires
        0 <= k < s.len(),
    ensures
        forest_links(s.take(k + 1), base, stroke) == forest_links(s.take(k), base, stroke)
            + subtree_links(s[k], base + forest_count(s.take(k)), stroke),
{
    assert(s.take(k + 1).drop_last() =~= s.take(k));
}

/// Lays down a subtree and returns the place of its own node.
fn plan_subtree(
    node: &MindmapNodeInput,
    level: usize,
    branch: usize,
    nodes: &mut Vec<PlannedNode>,
    links: &mut Vec<PlannedLink>,
) -> (place: usize)
    requires
        level + tree_depth(*node) <= usize::MAX,
        old(nodes)@.len() + tree_count(*node) <= usize::MAX,
    ensures
        place == old(nodes)@.len() + tree_count(*node) - 1,
        final(nodes)@.len() == old(nodes)@.len() + tree_count(*node),
        node_views(final(nodes)@) == node_views(old(nodes)@) + subtree_nodes(
            *node,
            level as nat,
            branch as nat,
        ),
        link_views(final(links)@) == link_views(old(links)@) + subtree_links(
            *node,
            old(nodes)@.len() as int,
            branch_stroke(branch as nat),
        ),
    decreases *node,
{
    let ghost kids = node.children@;
    let ghost base = nodes@.len() as int;
    let ghost nodes0 = node_views(nodes@);
    let ghost links0 = link_views(links@);
    let stroke: u32 = palette_stroke(branch);
    let mut tops: Vec<usize> = Vec::new();
    let mut i: usize = 0;
    assert(nodes0 + forest_nodes(kids.take(0), (level + 1) as nat, branch as nat) =~= nodes0);
    assert(links0 + forest_links(kids.take(0), base, stroke) =~= links0);
    while i < node.children.len()
        invariant
            i <= node.children.len(),
            kids == node.children@,
            decreases_to!(*node => kids),
            level + tree_depth(*node) <= usize::MAX,
            base + tree_count(*node) <= usize::MAX,
            stroke == branch_stroke(branch as nat),
            nodes@.len() == base + forest_count(kids.take(i as int)),
            node_views(nodes@) == nodes0 + forest_nodes(
                kids.take(i as int),
                (level + 1) as nat,
                branch as nat,
            ),
            link_views(links@) == links0 + forest_links(kids.take(i as int), base, stroke),
            tops@.len() == i,
            forall|j: int| 0 <= j < i ==> tops@[j] == top_place(kids, base, j),
        decreases node.children.len() - i,
    {
        proof {
            lemma_count_step(kids, i as int);
            lemma_depth_of_child(kids, i as int);
            lemma_nodes_step(kids, i as int, (level + 1) as nat, branch as nat);
            lemma_links_step(kids, i as int, base, stroke);
            lemma_count_le(kids, i + 1);
            assert(decreases_to!(kids => kids[i as int]));
        }
        let ghost n1 = node_views(nodes@);
        let ghost l1 = link_views(links@);
        let t: usize = plan_subtree(&node.children[i], level + 1, branch, nodes, links);
        tops.push(t);
        i += 1;
        assert(node_views(nodes@) =~= nodes0 + forest_nodes(
            kids.take(i as int),
            (level + 1) as nat,
            branch as nat,
        ));
        assert(link_views(links@) =~= links0 + forest_links(kids.take(i as int), base, stroke));
    }
    assert(kids.take(kids.len() as int) =~= kids);
    let place: usize = nodes.len();
    let ghost l2 = link_views(links@);
    let ghost all = top_links(kids, base, place as int, stroke);
    let mut j: usize = 0;
    assert(l2 + all.take(0) =~= l2);
    while j < tops.len()
        invariant
            j <= tops.len(),
            tops@.len() == kids.len(),
            forall|m: int| 0 <= m < tops@.len() ==> tops@[m] == top_place(kids, base, m),
            all == top_links(kids, base, place as int, stroke),
            link_views(links@) == l2 + all.take(j as int),
        decreases tops.len() - j,
    {
        let ghost before = link_views(links@);
        links.push(PlannedLink { parent: place, child: tops[j], stroke });
        j += 1;
        assert(link_views(links@) =~= before.push(links@.last()@));
        assert(all.take(j as int) =~= all.take(j - 1).push(all[j - 1]));
        assert(link_views(links@) =~= l2 + all.take(j as int));
    }
    assert(all.take(all.len() as int) =~= all);
    let ghost before = node_views(nodes@);
    nodes.push(
        PlannedNode { text: node.text.clone(), level, stroke, fill: palette_fill(branch) },
    );
    assert(node_views(nodes@) =~= before.push(nodes@.last()@));
    assert(node_views(nodes@) =~= nodes0 + subtree_nodes(*node, level as nat, branch as nat));
    assert(link_views(links@) =~= links0 + subtree_links(*node, base, stroke));
    place
}

proof fn lemma_count_le(s: Seq<MindmapNodeInput>, k: int)
    requires
        0 <= k <= s.len(),
    ensures
        forest_count(s.take(k)) <= forest_count(s),
    decreases s.len(),
{
    if k == s.len() {
        assert(s.take(k) =~= s);
    } else {
        lemma_count_le(s.drop_last(), k);
        assert(s.drop_last().take(k) =~= s.take(k));
    }
}

proof fn lemma_wings_valid(s: Seq<MindmapNodeInput>, k: nat)
    requires
        k <= s.len(),
    ensures
        wings(s, k).right.len() + wings(s, k).left.len() == k,
        forall|i: int| 0 <= i < wings(s, k).right.len() ==> 0 <= #[trigger] wings(s, k).right[i] < k,
        forall|i: int| 0 <= i < wings(s, k).left.len() ==> 0 <= #[trigger] wings(s, k).left[i] < k,
        wings(s, k).right_weight + wings(s, k).left_weight == forest_leaves(s.take(k as int)),
    decreases k,
{
    if k > 0 {
        lemma_wings_valid(s, (k - 1) as nat);
        assert(s.take(k as int).drop_last() =~= s.take(k - 1));
    }
}

/// Divides the root's children between the wings.
fn split_wings(children: &Vec<MindmapNodeInput>) -> (r: (Vec<usize>, Vec<usize>))
    requires
        forest_leaves(children@) <= usize::MAX,
    ensures
        r.0@.map_values(|x: usize| x as int) == wings(children@, children@.len()).right,
        r.1@.map_values(|x: usize| x as int) == wings(children@, children@.len()).left,
{
    let mut right: Vec<usize> = Vec::new();
    let mut left: Vec<usize> = Vec::new();
    let mut right_weight: usize = 0;
    let mut left_weight: usize = 0;
    let mut i: usize = 0;
    let ghost kids = children@;
    while i < children.len()
        invariant
            i <= children.len(),
            kids == children@,
            forest_leaves(kids) <= usize::MAX,
            right@.map_values(|x: usize| x as int) == wings(kids, i as nat).right,
            left@.map_values(|x: usize| x as int) == wings(kids, i as nat).left,
            right_weight == wings(kids, i as nat).right_weight,
            left_weight == wings(kids, i as nat).left_weight,
        decreases children.len() - i,
    {
        proof {
            lemma_wings_valid(kids, i as nat);
            lemma_leaves_step(kids, i as int);
        }
        let w: usize = count_leaves(&children[i]);
        let ghost before = wings(kids, i as nat);
        if right_weight <= left_weight {
            right.push(i);
            right_weight = right_weight + w;
            assert(right@.map_values(|x: usize| x as int) =~= before.right.push(i as int));
        } else {
            left.push(i);
            left_weight = left_weight + w;
            assert(left@.map_values(|x: usize| x as int) =~= before.left.push(i as int));
        }
        i += 1;
    }
    (right, left)
}

/// Lays down one wing and returns the places of its tops.
fn plan_wing(
    children: &Vec<MindmapNodeInput>,
    places: &Vec<usize>,
    first: usize,
    nodes: &mut Vec<PlannedNode>,
    links: &mut Vec<PlannedLink>,
) -> (tops: Vec<usize>)
    requires
        forall|i: int| 0 <= i < places@.len() ==> #[trigger] places@[i] < children@.len(),
        first + places@.len() <= usize::MAX,
        1 + forest_depth(children@) <= usize::MAX,
        old(nodes)@.len() + forest_count(
            picked(children@, places@.map_values(|x: usize| x as int)),
        ) <= usize::MAX,
    ensures
        ({
            let s = picked(children@, places@.map_values(|x: usize| x as int));
            let base = old(nodes)@.len() as int;
            &&& final(nodes)@.len() == base + forest_count(s)
            &&& node_views(final(nodes)@) == node_views(old(nodes)@) + wing_nodes(s, first as nat)
            &&& link_views(final(links)@) == link_views(old(links)@) + wing_links(
                s,
                first as nat,
                base,
            )
            &&& tops@.len() == s.len()
            &&& forall|i: int| 0 <= i < s.len() ==> tops@[i] == top_place(s, base, i)
        }),
{
    let ghost s = picked(children@, places@.map_values(|x: usize| x as int));
    let ghost base = nodes@.len() as int;
    let ghost nodes0 = node_views(nodes@);
    let ghost links0 = link_views(links@);
    let mut tops: Vec<usize> = Vec::new();
    let mut i: usize = 0;
    assert(nodes0 + wing_nodes(s.take(0), first as nat) =~= nodes0);
    assert(links0 + wing_links(s.take(0), first as nat, base) =~= links0);
    while i < places.len()
        invariant
            i <= places.len(),
            s == picked(children@, places@.map_values(|x: usize| x as int)),
            forall|k: int| 0 <= k < places@.len() ==> #[trigger] places@[k] < children@.len(),
            first + places@.len() <= usize::MAX,
            1 + forest_depth(children@) <= usize::MAX,
            base + forest_count(s) <= usize::MAX,
            nodes@.len() == base + forest_count(s.take(i as int)),
            node_views(nodes@) == nodes0 + wing_nodes(s.take(i as int), first as nat),
            link_views(links@) == links0 + wing_links(s.take(i as int), first as nat, base),
            tops@.len() == i,
            forall|j: int| 0 <= j < i ==> tops@[j] == top_place(s, base, j),
        decreases places.len() - i,
    {
        let c: usize = places[i];
        proof {
            assert(s[i as int] == children@[c as int]);
            lemma_depth_of_child(children@, c as int);
            lemma_count_step(s, i as int);
            lemma_count_le(s, i + 1);
            assert(s.take(i + 1).drop_last() =~= s.take(i as int));
            assert(s.take(i + 1).last() == s[i as int]);
        }
        let t: usize = plan_subtree(&children[c], 1, first + i, nodes, links);
        tops.push(t);
        i += 1;
        assert(node_views(nodes@) =~= nodes0 + wing_nodes(s.take(i as int), first as nat));
        assert(link_views(links@) =~= links0 + wing_links(s.take(i as int), first as nat, base));
    }
    assert(s.take(s.len() as int) =~= s);
    tops
}

/// Adds the links from the root to the tops of a wing.
fn link_tops(
    tops: &Vec<usize>,
    first: usize,
    links: &mut Vec<PlannedLink>,
    Ghost(s): Ghost<Seq<MindmapNodeInput>>,
    Ghost(base): Ghost<int>,
)
    requires
        tops@.len() == s.len(),
        first + tops@.len() <= usize::MAX,
        forall|i: int| 0 <= i < s.len() ==> tops@[i] == top_place(s, base, i),
    ensures
        link_views(final(links)@) == link_views(old(links)@) + root_links(s, first as nat, base),
{
    let ghost links0 = link_views(links@);
    let ghost all = root_links(s, first as nat, base);
    let mut i: usize = 0;
    assert(links0 + all.take(0) =~= links0);
    while i < tops.len()
        invariant
            i <= tops.len(),
            tops@.len() == s.len(),
            first + tops@.len() <= usize::MAX,
            forall|k: int| 0 <= k < s.len() ==> tops@[k] == top_place(s, base, k),
            all == root_links(s, first as nat, base),
            link_views(links@) == links0 + all.take(i as int),
        decreases tops.len() - i,
    {
        let ghost before = link_views(links@);
        links.push(PlannedLink { parent: 0, child: tops[i], stroke: palette_stroke(first + i) });
        i += 1;
        assert(link_views(links@) =~= before.push(links@.last()@));
        assert(all.take(i as int) =~= all.take(i - 1).push(all[i - 1]));
        assert(link_views(links@) =~= links0 + all.take(i as int));
    }
    assert(all.take(all.len() as int) =~= all);
}

/// Plans a mind map.
pub fn plan(root: &MindmapNodeInput) -> (r: MindmapPlan)
    requires
        tree_count(*root) < usize::MAX - PALETTE_LEN,
    ensures
        node_views(r.nodes@) == plan_nodes(*root),
        link_views(r.links@) == plan_links(*root),
        r.right@.map_values(|x: usize| x as int) == wings(
            root.children@,
            root.children@.len(),
        ).right,
        r.left@.map_values(|x: usize| x as int) == wings(root.children@, root.children@.len()).left,
{
    let ghost kids = root.children@;
    proof {
        crate::mindmap::law_leaves_and_depth_within_count(*root);
        lemma_forest_leaves_le(kids);
        lemma_wings_valid(kids, kids.len());
        lemma_wing_counts(kids, kids.len());
        assert(kids.take(kids.len() as int) =~= kids);
        lemma_len_le_count(kids);
    }
    let mut nodes: Vec<PlannedNode> = Vec::new();
    let mut links: Vec<PlannedLink> = Vec::new();
    nodes.push(
        PlannedNode { text: root.text.clone(), level: 0, stroke: ROOT_STROKE, fill: ROOT_FILL },
    );
    let split: (Vec<usize>, Vec<usize>) = split_wings(&root.children);
    let right: Vec<usize> = split.0;
    let left: Vec<usize> = split.1;
    let ghost w = wings(kids, kids.len());
    let ghost r = right_wing(*root);
    let ghost l = left_wing(*root);
    proof {
        assert forall|i: int| 0 <= i < right@.len() implies #[trigger] right@[i] < kids.len() by {
            assert(right@.map_values(|x: usize| x as int)[i] == w.right[i]);
        }
        assert forall|i: int| 0 <= i < left@.len() implies #[trigger] left@[i] < kids.len() by {
            assert(left@.map_values(|x: usize| x as int)[i] == w.left[i]);
        }
        assert(right@.map_values(|x: usize| x as int).len() == right@.len());
        assert(left@.map_values(|x: usize| x as int).len() == left@.len());
    }
    let rt: Vec<usize> = plan_wing(&root.children, &right, 0, &mut nodes, &mut links);
    let ghost base = nodes@.len() as int;
    let lt: Vec<usize> = plan_wing(&root.children, &left, PALETTE_LEN / 2, &mut nodes, &mut links);
    link_tops(&rt, 0, &mut links, Ghost(r), Ghost(1));
    link_tops(&lt, PALETTE_LEN / 2, &mut links, Ghost(l), Ghost(base));
    assert(node_views(nodes@) =~= plan_nodes(*root));
    assert(link_views(links@) =~= plan_links(*root));
    MindmapPlan { nodes, links, right, left }
}

proof fn lemma_forest_leaves_le(s: Seq<MindmapNodeInput>)
    ensures
        forest_leaves(s) <= forest_count(s),
    decreases s.len(),
{
    if s.len() > 0 {
        lemma_forest_leaves_le(s.drop_last());
        crate::mindmap::law_leaves_and_depth_within_count(s.last());
    }
}

proof fn lemma_len_le_count(s: Seq<MindmapNodeInput>)
    ensures
        s.len() <= forest_count(s),
    decreases s.len(),
{
    if s.len() > 0 {
        lemma_len_le_count(s.drop_last());
        assert(tree_count(s.last()) >= 1);
    }
}

proof fn lemma_picked_push(s: Seq<MindmapNodeInput>, places: Seq<int>, p: int)
    ensures
        forest_count(picked(s, places.push(p))) == forest_count(picked(s, places)) + tree_count(
            s[p],
        ),
        forest_leaves(picked(s, places.push(p))) == forest_leaves(picked(s, places)) + tree_leaves(
            s[p],
        ),
{
    assert(picked(s, places.push(p)).drop_last() =~= picked(s, places));
    assert(picked(s, places.push(p)).last() == s[p]);
}

proof fn lemma_wing_counts(s: Seq<MindmapNodeInput>, k: nat)
    requires
        k <= s.len(),
    ensures
        forest_count(picked(s, wings(s, k).right)) + forest_count(picked(s, wings(s, k).left))
            == forest_count(s.take(k as int)),
        forest_leaves(picked(s, wings(s, k).right)) == wings(s, k).right_weight,
        forest_leaves(picked(s, wings(s, k).left)) == wings(s, k).left_weight,
    decreases k,
{
    if k > 0 {
        let w = wings(s, (k - 1) as nat);
        lemma_wing_counts(s, (k - 1) as nat);
        lemma_picked_push(s, w.right, k - 1);
        lemma_picked_push(s, w.left, k - 1);
        assert(s.take(k as int).drop_last() =~= s.take(k - 1));
    }
}

/// The number of links that lead to place `j`.
pub open spec fn links_to(links: Seq<LinkV>, j: int) -> nat
    decreases links.len(),
{
    if links.len() == 0 {
        0
    } else {
        links_to(links.drop_last(), j) + (if links.last().child == j {
            1nat
        } else {
            0nat
        })
    }
}

proof fn lemma_links_to_concat(a: Seq<LinkV>, b: Seq<LinkV>, j: int)
    ensures
        links_to(a + b, j) == links_to(a, j) + links_to(b, j),
    decreases b.len(),
{
    if b.len() == 0 {
        assert(a + b =~= a);
    } else {
        assert((a + b).drop_last() =~= a + b.drop_last());
        lemma_links_to_concat(a, b.drop_last(), j);
    }
}

/// One when `lo <= j < hi`, else zero.
spec fn within(lo: int, j: int, hi: int) -> nat {
    if lo <= j < hi {
        1
    } else {
        0
    }
}

proof fn lemma_subtree_links_to(n: MindmapNodeInput, base: int, stroke: u32, j: int)
    ensures
        links_to(subtree_links(n, base, stroke), j) == within(base, j, base + tree_count(n) - 1),
        subtree_links(n, base, stroke).len() == tree_count(n) - 1,
    decreases n, 0int,
{
    let kids = n.children@;
    let top = base + forest_count(kids);
    lemma_forest_links_to(kids, base, stroke, top, stroke, j);
    lemma_links_to_concat(forest_links(kids, base, stroke), top_links(kids, base, top, stroke), j);
}

/// The links inside a list of trees and the links to their tops lead to each
/// of their places exactly once.
proof fn lemma_forest_links_to(
    s: Seq<MindmapNodeInput>,
    base: int,
    stroke: u32,
    parent: int,
    top_stroke: u32,
    j: int,
)
    ensures
        links_to(forest_links(s, base, stroke), j) + links_to(
            top_links(s, base, parent, top_stroke),
            j,
        ) == within(base, j, base + forest_count(s)),
        forest_links(s, base, stroke).len() + s.len() == forest_count(s),
    decreases s, 1int,
{
    let tops = top_links(s, base, parent, top_stroke);
    if s.len() > 0 {
        let d = s.drop_last();
        let dtops = top_links(d, base, parent, top_stroke);
        lemma_forest_links_to(d, base, stroke, parent, top_stroke, j);
        lemma_subtree_links_to(s.last(), base + forest_count(d), stroke, j);
        lemma_links_to_concat(
            forest_links(d, base, stroke),
            subtree_links(s.last(), base + forest_count(d), stroke),
            j,
        );
        assert(tops.drop_last() =~= dtops) by {
            assert forall|i: int| 0 <= i < d.len() implies #[trigger] top_place(d, base, i)
                == top_place(s, base, i) by {
                assert(d.take(i + 1) =~= s.take(i + 1));
            }
        }
        assert(s.take(s.len() as int) =~= s);
        assert(tops.last().child == base + forest_count(s) - 1);
        assert(tree_count(s.last()) >= 1);
    }
}

proof fn lemma_wing_links_to(s: Seq<MindmapNodeInput>, first: nat, base: int, j: int)
    ensures
        links_to(wing_links(s, first, base), j) + links_to(root_links(s, first, base), j) == within(
            base,
            j,
            base + forest_count(s),
        ),
        wing_links(s, first, base).len() + s.len() == forest_count(s),
    decreases s.len(),
{
    let tops = root_links(s, first, base);
    if s.len() > 0 {
        let d = s.drop_last();
        let stroke = branch_stroke((first + s.len() - 1) as nat);
        lemma_wing_links_to(d, first, base, j);
        lemma_subtree_links_to(s.last(), base + forest_count(d), stroke, j);
        lemma_links_to_concat(
            wing_links(d, first, base),
            subtree_links(s.last(), base + forest_count(d), stroke),
            j,
        );
        assert(tops.drop_last() =~= root_links(d, first, base)) by {
            assert forall|i: int| 0 <= i < d.len() implies #[trigger] top_place(d, base, i)
                == top_place(s, base, i) by {
                assert(d.take(i + 1) =~= s.take(i + 1));
            }
        }
        assert(s.take(s.len() as int) =~= s);
        assert(tops.last().child == base + forest_count(s) - 1);
        assert(tree_count(s.last()) >= 1);
    }
}

pub(crate) proof fn lemma_subtree_nodes_len(n: MindmapNodeInput, level: nat, branch: nat)
    ensures
        subtree_nodes(n, level, branch).len() == tree_count(n),
    decreases n, 0int,
{
    lemma_forest_nodes_len(n.children@, level + 1, branch);
}

pub(crate) proof fn lemma_forest_nodes_len(s: Seq<MindmapNodeInput>, level: nat, branch: nat)
    ensures
        forest_nodes(s, level, branch).len() == forest_count(s),
    decreases s, 1int,
{
    if s.len() > 0 {
        lemma_forest_nodes_len(s.drop_last(), level, branch);
        lemma_subtree_nodes_len(s.last(), level, branch);
    }
}

pub(crate) proof fn lemma_wing_nodes_len(s: Seq<MindmapNodeInput>, first: nat)
    ensures
        wing_nodes(s, first).len() == forest_count(s),
    decreases s.len(),
{
    if s.len() > 0 {
        lemma_wing_nodes_len(s.drop_last(), first);
        lemma_subtree_nodes_len(s.last(), 1, (first + s.len() - 1) as nat);
    }
}

/// A plan draws every node of the tree once, the root first, and joins every
/// node but the root to the rest by exactly one link.
pub proof fn law_every_other_node_has_one_link(root: MindmapNodeInput)
    ensures
        plan_nodes(root).len() == tree_count(root),
        plan_nodes(root)[0] == root_node(root),
        plan_links(root).len() == tree_count(root) - 1,
        forall|j: int|
            #[trigger] links_to(plan_links(root), j) == (if 1 <= j < tree_count(root) {
                1nat
            } else {
                0nat
            }),
{
    let kids = root.children@;
    let (r, l) = (right_wing(root), left_wing(root));
    let base = 1 + forest_count(r);
    lemma_wing_counts(kids, kids.len());
    assert(kids.take(kids.len() as int) =~= kids);
    lemma_wing_nodes_len(r, 0);
    lemma_wing_nodes_len(l, 3);
    lemma_wing_links_to(r, 0, 1, 0);
    lemma_wing_links_to(l, 3, base as int, 0);
    assert forall|j: int|
        #[trigger] links_to(plan_links(root), j) == (if 1 <= j < tree_count(root) {
            1nat
        } else {
            0nat
        }) by {
        let (a, b) = (wing_links(r, 0, 1), wing_links(l, 3, base as int));
        let (c, d) = (root_links(r, 0, 1), root_links(l, 3, base as int));
        lemma_wing_links_to(r, 0, 1, j);
        lemma_wing_links_to(l, 3, base as int, j);
        lemma_links_to_concat(a, b, j);
        lemma_links_to_concat(a + b, c, j);
        lemma_links_to_concat(a + b + c, d, j);
    }
}

/// The greatest number of leaves of a tree in a list.
pub open spec fn heaviest(s: Seq<MindmapNodeInput>) -> nat
    decreases s.len(),
{
    if s.len() == 0 {
        0
    } else if heaviest(s.drop_last()) >= tree_leaves(s.last()) {
        heaviest(s.drop_last())
    } else {
        tree_leaves(s.last())
    }
}

/// The wings keep the input order, take every branch exactly once, and differ
/// in leaves by no more than the heaviest branch carries.
pub proof fn law_wings_are_balanced(s: Seq<MindmapNodeInput>, k: nat)
    requires
        k <= s.len(),
    ensures
        wings(s, k).right.len() + wings(s, k).left.len() == k,
        forall|i: int, j: int|
            0 <= i < j < wings(s, k).right.len() ==> wings(s, k).right[i] < wings(s, k).right[j],
        forall|i: int, j: int|
            0 <= i < j < wings(s, k).left.len() ==> wings(s, k).left[i] < wings(s, k).left[j],
        forall|c: int|
            0 <= c < k ==> (#[trigger] wings(s, k).right.contains(c) <==> !wings(s, k).left.contains(c)),
        wings(s, k).right_weight <= wings(s, k).left_weight + heaviest(s.take(k as int)),
        wings(s, k).left_weight <= wings(s, k).right_weight + heaviest(s.take(k as int)),
    decreases k,
{
    lemma_wings_valid(s, k);
    if k > 0 {
        let w = wings(s, (k - 1) as nat);
        let v = wings(s, k);
        law_wings_are_balanced(s, (k - 1) as nat);
        lemma_wings_valid(s, (k - 1) as nat);
        assert(s.take(k as int).drop_last() =~= s.take(k - 1));
        assert forall|c: int| 0 <= c < k implies (#[trigger] v.right.contains(c)
            <==> !v.left.contains(c)) by {
            let to_right = w.right_weight <= w.left_weight;
            if c == k - 1 {
                if to_right {
                    assert(v.right[v.right.len() - 1] == c);
                } else {
                    assert(v.left[v.left.len() - 1] == c);
                }
            } else {
                assert(w.right.contains(c) <==> !w.left.contains(c));
                if w.right.contains(c) {
                    let i = choose|i: int| 0 <= i < w.right.len() && w.right[i] == c;
                    assert(v.right[i] == c);
                } else {
                    let i = choose|i: int| 0 <= i < w.left.len() && w.left[i] == c;
                    assert(v.left[i] == c);
                }
                if v.right.contains(c) {
                    let i = choose|i: int| 0 <= i < v.right.len() && v.right[i] == c;
                    assert(w.right[i] == c);
                }
                if v.left.contains(c) {
                    let i = choose|i: int| 0 <= i < v.left.len() && v.left[i] == c;
                    assert(w.left[i] == c);
                }
            }
        }
    }
}

/// Every leaf of the tree is carried by one of the wings.
pub proof fn law_wings_carry_every_leaf(root: MindmapNodeInput)
    requires
        root.children@.len() > 0,
    ensures
        forest_leaves(right_wing(root)) + forest_leaves(left_wing(root)) == tree_leaves(root),
{
    let kids = root.children@;
    lemma_wing_counts(kids, kids.len());
    lemma_wings_valid(kids, kids.len());
    assert(kids.take(kids.len() as int) =~= kids);
}

} // verus!
