//! What a drawn mind map shows of its tree.

use vstd::prelude::*;
use vstd::multiset::Multiset;
use crate::board::BoardV;
use crate::board_text::Fresh;
use crate::canvas_dispatch::{op_applied, op_effect, op_fits};
use crate::canvas_op::{op_outcome, CanvasOp, MindmapPen};
use crate::element::{ElementV, FillStyle, KindV, LineType, TextAlign};
use crate::ids::ElementId;
use crate::mindmap::{
    fill_table, forest_count, stroke_table, tree_count, MindmapNodeInput, ROOT_FILL, ROOT_STROKE,
};
use crate::mindmap_layout::{LinkPath, NodeBox};
use crate::mindmap_plan::{
    forest_links, forest_nodes, law_every_other_node_has_one_link, left_wing, lemma_forest_nodes_len,
    lemma_subtree_nodes_len, lemma_wing_nodes_len, picked, plan_links,
    plan_nodes, right_wing, root_links, subtree_links, subtree_nodes, top_links, top_place,
    wing_links, wing_nodes, wings, LinkV, NodeV,
};

verus! {

/// The texts of a tree with their distances from its root, when that has the
/// distance `level`; each as often as it occurs.
pub open spec fn tree_entries(n: MindmapNodeInput, level: nat) -> Multiset<(Seq<char>, nat)>
    decreases n,
{
    forest_entries(n.children@, level + 1).insert((n.text@, level))
}

/// The texts of a list of trees with their distances.
pub open spec fn forest_entries(s: Seq<MindmapNodeInput>, level: nat) -> Multiset<(Seq<char>, nat)>
    decreases s,
{
    if s.len() == 0 {
        Multiset::empty()
    } else {
        forest_entries(s.drop_last(), level).add(tree_entries(s.last(), level))
    }
}

/// The texts of a parent and of each of its children.
pub open spec fn child_edges(text: Seq<char>, s: Seq<MindmapNodeInput>) -> Multiset<
    (Seq<char>, Seq<char>),
>
    decreases s.len(),
{
    if s.len() == 0 {
        Multiset::empty()
    } else {
        child_edges(text, s.drop_last()).insert((text, s.last().text@))
    }
}

/// The texts of all parents and children in a tree.
pub open spec fn tree_edges(n: MindmapNodeInput) -> Multiset<(Seq<char>, Seq<char>)>
    decreases n,
{
    forest_edges(n.children@).add(child_edges(n.text@, n.children@))
}

/// The texts of all parents and children in a list of trees.
pub open spec fn forest_edges(s: Seq<MindmapNodeInput>) -> Multiset<(Seq<char>, Seq<char>)>
    decreases s,
{
    if s.len() == 0 {
        Multiset::empty()
    } else {
        forest_edges(s.drop_last()).add(tree_edges(s.last()))
    }
}

/// The texts and levels of nodes.
pub open spec fn entries_of(nodes: Seq<NodeV>) -> Multiset<(Seq<char>, nat)>
    decreases nodes.len(),
{
    if nodes.len() == 0 {
        Multiset::empty()
    } else {
        entries_of(nodes.drop_last()).insert((nodes.last().text, nodes.last().level))
    }
}

/// The texts of the nodes that links join.
pub open spec fn edges_of(nodes: Seq<NodeV>, links: Seq<LinkV>) -> Multiset<(Seq<char>, Seq<char>)>
    decreases links.len(),
{
    if links.len() == 0 {
        Multiset::empty()
    } else {
        edges_of(nodes, links.drop_last()).insert(
            (nodes[links.last().parent].text, nodes[links.last().child].text),
        )
    }
}

proof fn lemma_entries_add(a: Seq<NodeV>, b: Seq<NodeV>)
    ensures
        entries_of(a + b) == entries_of(a).add(entries_of(b)),
    decreases b.len(),
{
    if b.len() == 0 {
        assert(a + b =~= a);
        assert(entries_of(a).add(Multiset::empty()) =~= entries_of(a));
    } else {
        lemma_entries_add(a, b.drop_last());
        assert((a + b).drop_last() =~= a + b.drop_last());
        let x = (b.last().text, b.last().level);
        assert(entries_of(a).add(entries_of(b.drop_last())).insert(x) =~= entries_of(a).add(
            entries_of(b.drop_last()).insert(x),
        ));
    }
}

proof fn lemma_edges_add(nodes: Seq<NodeV>, a: Seq<LinkV>, b: Seq<LinkV>)
    ensures
        edges_of(nodes, a + b) == edges_of(nodes, a).add(edges_of(nodes, b)),
    decreases b.len(),
{
    if b.len() == 0 {
        assert(a + b =~= a);
        assert(edges_of(nodes, a).add(Multiset::empty()) =~= edges_of(nodes, a));
    } else {
        lemma_edges_add(nodes, a, b.drop_last());
        assert((a + b).drop_last() =~= a + b.drop_last());
        let x = (nodes[b.last().parent].text, nodes[b.last().child].text);
        assert(edges_of(nodes, a).add(edges_of(nodes, b.drop_last())).insert(x) =~= edges_of(
            nodes,
            a,
        ).add(edges_of(nodes, b.drop_last()).insert(x)));
    }
}

proof fn lemma_subtree_entries(n: MindmapNodeInput, level: nat, branch: nat)
    ensures
        entries_of(subtree_nodes(n, level, branch)) == tree_entries(n, level),
    decreases n, 0int,
{
    lemma_forest_entries(n.children@, level + 1, branch);
    let nodes = subtree_nodes(n, level, branch);
    assert(nodes.drop_last() =~= forest_nodes(n.children@, level + 1, branch));
}

proof fn lemma_forest_entries(s: Seq<MindmapNodeInput>, level: nat, branch: nat)
    ensures
        entries_of(forest_nodes(s, level, branch)) == forest_entries(s, level),
    decreases s, 1int,
{
    if s.len() > 0 {
        lemma_forest_entries(s.drop_last(), level, branch);
        lemma_subtree_entries(s.last(), level, branch);
        lemma_entries_add(
            forest_nodes(s.drop_last(), level, branch),
            subtree_nodes(s.last(), level, branch),
        );
    }
}

proof fn lemma_wing_entries(s: Seq<MindmapNodeInput>, first: nat)
    ensures
        entries_of(wing_nodes(s, first)) == forest_entries(s, 1),
    decreases s.len(),
{
    if s.len() > 0 {
        let k = (first + s.len() - 1) as nat;
        lemma_wing_entries(s.drop_last(), first);
        lemma_subtree_entries(s.last(), 1, k);
        lemma_entries_add(wing_nodes(s.drop_last(), first), subtree_nodes(s.last(), 1, k));
    }
}

/// The two wings hold between them what the first `k` children hold.
proof fn lemma_wings_hold_all(s: Seq<MindmapNodeInput>, k: nat, text: Seq<char>)
    requires
        k <= s.len(),
    ensures
        ({
            let r = picked(s, wings(s, k).right);
            let l = picked(s, wings(s, k).left);
            let t = s.take(k as int);
            &&& forest_entries(r, 1).add(forest_entries(l, 1)) == forest_entries(t, 1)
            &&& forest_edges(r).add(forest_edges(l)) == forest_edges(t)
            &&& child_edges(text, r).add(child_edges(text, l)) == child_edges(text, t)
        }),
    decreases k,
{
    let r = picked(s, wings(s, k).right);
    let l = picked(s, wings(s, k).left);
    let t = s.take(k as int);
    if k > 0 {
        let w = wings(s, (k - 1) as nat);
        lemma_wings_hold_all(s, (k - 1) as nat, text);
        let (pr, pl) = (picked(s, w.right), picked(s, w.left));
        assert(picked(s, w.right.push(k - 1)).drop_last() =~= pr);
        assert(picked(s, w.left.push(k - 1)).drop_last() =~= pl);
        assert(t.drop_last() =~= s.take(k - 1));
        assert(t.last() == s[k - 1]);
    }
    assert(forest_entries(r, 1).add(forest_entries(l, 1)) =~= forest_entries(t, 1));
    assert(forest_edges(r).add(forest_edges(l)) =~= forest_edges(t));
    assert(child_edges(text, r).add(child_edges(text, l)) =~= child_edges(text, t));
}

/// Every node of the tree is planned once, with its own text and its own
/// distance from the root.
pub proof fn law_plan_shows_every_text(root: MindmapNodeInput)
    ensures
        entries_of(plan_nodes(root)) == tree_entries(root, 0),
{
    let kids = root.children@;
    let (r, l) = (right_wing(root), left_wing(root));
    let top = seq![crate::mindmap_plan::root_node(root)];
    lemma_wing_entries(r, 0);
    lemma_wing_entries(l, 3);
    lemma_entries_add(top, wing_nodes(r, 0));
    lemma_entries_add(top + wing_nodes(r, 0), wing_nodes(l, 3));
    lemma_wings_hold_all(kids, kids.len(), root.text@);
    assert(kids.take(kids.len() as int) =~= kids);
    assert(top.drop_last() =~= Seq::<NodeV>::empty());
    assert(entries_of(top.drop_last()) == Multiset::<(Seq<char>, nat)>::empty());
    assert(top.last().text == root.text@);
    assert(entries_of(top) =~= Multiset::empty().insert((root.text@, 0nat)));
    assert(entries_of(plan_nodes(root)) =~= tree_entries(root, 0));
}

/// Whether a link joins a node to one that is a level deeper, in the colour of
/// the deeper one, which has the colours of its parent unless that is the root.
pub open spec fn joins(nodes: Seq<NodeV>, l: LinkV) -> bool {
    let (p, c) = (nodes[l.parent], nodes[l.child]);
    &&& 0 <= l.parent < nodes.len()
    &&& 0 <= l.child < nodes.len()
    &&& c.level == p.level + 1
    &&& l.stroke == c.stroke
    &&& l.parent != 0 ==> p.stroke == c.stroke && p.fill == c.fill
    &&& l.parent == 0 <==> p.level == 0
}

/// Whether all links join as they should.
pub open spec fn all_join(nodes: Seq<NodeV>, links: Seq<LinkV>) -> bool {
    forall|i: int| 0 <= i < links.len() ==> joins(nodes, #[trigger] links[i])
}

/// Whether the nodes from place `base` on are `part`.
spec fn laid_at(nodes: Seq<NodeV>, base: int, part: Seq<NodeV>) -> bool {
    &&& 1 <= base
    &&& base + part.len() <= nodes.len()
    &&& forall|i: int| 0 <= i < part.len() ==> nodes[base + i] == #[trigger] part[i]
}

proof fn lemma_laid_parts(nodes: Seq<NodeV>, base: int, a: Seq<NodeV>, b: Seq<NodeV>)
    requires
        laid_at(nodes, base, a + b),
    ensures
        laid_at(nodes, base, a),
        laid_at(nodes, base + a.len(), b),
{
    assert forall|i: int| 0 <= i < a.len() implies nodes[base + i] == #[trigger] a[i] by {
        assert((a + b)[i] == a[i]);
    }
    assert forall|i: int| 0 <= i < b.len() implies nodes[base + a.len() + i] == #[trigger] b[i] by {
        assert((a + b)[a.len() + i] == b[i]);
    }
}

/// The top of each tree of a list that is laid down from `base` on.
proof fn lemma_tops(
    nodes: Seq<NodeV>,
    s: Seq<MindmapNodeInput>,
    level: nat,
    branch: nat,
    base: int,
    i: int,
)
    requires
        laid_at(nodes, base, forest_nodes(s, level, branch)),
        0 <= i < s.len(),
    ensures
        base <= top_place(s, base, i) < base + forest_count(s),
        ({
            let c = nodes[top_place(s, base, i)];
            c.text == s[i].text@ && c.level == level && c.stroke
                == crate::mindmap_plan::branch_stroke(branch) && c.fill
                == crate::mindmap_plan::branch_fill(branch)
        }),
    decreases s.len(),
{
    let d = s.drop_last();
    let a = forest_nodes(d, level, branch);
    let b = subtree_nodes(s.last(), level, branch);
    lemma_laid_parts(nodes, base, a, b);
    lemma_forest_nodes_len(d, level, branch);
    lemma_subtree_nodes_len(s.last(), level, branch);
    if i < d.len() {
        lemma_tops(nodes, d, level, branch, base, i);
        assert(d.take(i + 1) =~= s.take(i + 1));
    } else {
        assert(s.take(i + 1) =~= s);
        assert(b[b.len() - 1] == nodes[base + a.len() + (b.len() - 1)]);
    }
}

proof fn lemma_child_edges_add(nodes: Seq<NodeV>, text: Seq<char>, s: Seq<MindmapNodeInput>, links: Seq<LinkV>)
    requires
        links.len() == s.len(),
        forall|i: int|
            0 <= i < s.len() ==> nodes[(#[trigger] links[i]).parent].text == text
                && nodes[links[i].child].text == s[i].text@,
    ensures
        edges_of(nodes, links) == child_edges(text, s),
    decreases s.len(),
{
    if s.len() > 0 {
        let e = links.drop_last();
        assert forall|i: int| 0 <= i < e.len() implies nodes[(#[trigger] e[i]).parent].text == text
            && nodes[e[i].child].text == s.drop_last()[i].text@ by {
            assert(e[i] == links[i]);
        }
        lemma_child_edges_add(nodes, text, s.drop_last(), e);
        assert(links[links.len() - 1].parent == links.last().parent);
    }
}

proof fn lemma_join_add(nodes: Seq<NodeV>, a: Seq<LinkV>, b: Seq<LinkV>)
    requires
        all_join(nodes, a),
        all_join(nodes, b),
    ensures
        all_join(nodes, a + b),
{
    assert forall|i: int| 0 <= i < (a + b).len() implies joins(nodes, #[trigger] (a + b)[i]) by {
        if i < a.len() {
            assert((a + b)[i] == a[i]);
        } else {
            assert((a + b)[i] == b[i - a.len()]);
        }
    }
}

proof fn lemma_subtree_joined(nodes: Seq<NodeV>, n: MindmapNodeInput, level: nat, branch: nat, base: int)
    requires
        laid_at(nodes, base, subtree_nodes(n, level, branch)),
        level > 0,
    ensures
        all_join(nodes, subtree_links(n, base, crate::mindmap_plan::branch_stroke(branch))),
        edges_of(nodes, subtree_links(n, base, crate::mindmap_plan::branch_stroke(branch)))
            == tree_edges(n),
    decreases n, 0int,
{
    let s = n.children@;
    let stroke = crate::mindmap_plan::branch_stroke(branch);
    let a = forest_nodes(s, level + 1, branch);
    let whole = subtree_nodes(n, level, branch);
    let top = seq![whole.last()];
    assert(whole =~= a + top);
    lemma_laid_parts(nodes, base, a, top);
    lemma_forest_nodes_len(s, level + 1, branch);
    lemma_forest_joined(nodes, s, level + 1, branch, base);
    let p = base + forest_count(s);
    assert(nodes[p] == top[0]);
    let tops = top_links(s, base, p, stroke);
    assert forall|i: int| 0 <= i < tops.len() implies joins(nodes, #[trigger] tops[i])
        && nodes[tops[i].parent].text == n.text@ && nodes[tops[i].child].text == s[i].text@ by {
        lemma_tops(nodes, s, level + 1, branch, base, i);
    }
    lemma_child_edges_add(nodes, n.text@, s, tops);
    lemma_join_add(nodes, forest_links(s, base, stroke), tops);
    lemma_edges_add(nodes, forest_links(s, base, stroke), tops);
}

proof fn lemma_forest_joined(
    nodes: Seq<NodeV>,
    s: Seq<MindmapNodeInput>,
    level: nat,
    branch: nat,
    base: int,
)
    requires
        laid_at(nodes, base, forest_nodes(s, level, branch)),
        level > 0,
    ensures
        all_join(nodes, forest_links(s, base, crate::mindmap_plan::branch_stroke(branch))),
        edges_of(nodes, forest_links(s, base, crate::mindmap_plan::branch_stroke(branch)))
            == forest_edges(s),
    decreases s, 1int,
{
    if s.len() > 0 {
        let stroke = crate::mindmap_plan::branch_stroke(branch);
        let d = s.drop_last();
        let a = forest_nodes(d, level, branch);
        lemma_laid_parts(nodes, base, a, subtree_nodes(s.last(), level, branch));
        lemma_forest_nodes_len(d, level, branch);
        lemma_forest_joined(nodes, d, level, branch, base);
        lemma_subtree_joined(nodes, s.last(), level, branch, base + forest_count(d));
        let x = forest_links(d, base, stroke);
        let y = subtree_links(s.last(), base + forest_count(d), stroke);
        lemma_join_add(nodes, x, y);
        lemma_edges_add(nodes, x, y);
    }
}

proof fn lemma_wing_joined(nodes: Seq<NodeV>, s: Seq<MindmapNodeInput>, first: nat, base: int)
    requires
        laid_at(nodes, base, wing_nodes(s, first)),
        nodes[0].level == 0,
    ensures
        all_join(nodes, wing_links(s, first, base)),
        edges_of(nodes, wing_links(s, first, base)) == forest_edges(s),
        all_join(nodes, root_links(s, first, base)),
        edges_of(nodes, root_links(s, first, base)) == child_edges(nodes[0].text, s),
        forall|i: int|
            0 <= i < s.len() ==> {
                let c = nodes[(#[trigger] root_links(s, first, base)[i]).child];
                c.stroke == stroke_table()[((first + i) % 6) as int] && c.fill == fill_table()[((
                first + i) % 6) as int] && c.text == s[i].text@
            },
    decreases s.len(),
{
    let tops = root_links(s, first, base);
    if s.len() > 0 {
        let d = s.drop_last();
        let k = (first + s.len() - 1) as nat;
        let stroke = crate::mindmap_plan::branch_stroke(k);
        let a = wing_nodes(d, first);
        let b = subtree_nodes(s.last(), 1, k);
        lemma_laid_parts(nodes, base, a, b);
        lemma_wing_nodes_len(d, first);
        lemma_subtree_nodes_len(s.last(), 1, k);
        lemma_wing_joined(nodes, d, first, base);
        lemma_subtree_joined(nodes, s.last(), 1, k, base + forest_count(d));
        let x = wing_links(d, first, base);
        let y = subtree_links(s.last(), base + forest_count(d), stroke);
        lemma_join_add(nodes, x, y);
        lemma_edges_add(nodes, x, y);
        let e = root_links(d, first, base);
        assert(tops.drop_last() =~= e) by {
            assert forall|i: int| 0 <= i < d.len() implies #[trigger] top_place(d, base, i)
                == top_place(s, base, i) by {
                assert(d.take(i + 1) =~= s.take(i + 1));
            }
        }
        assert(s.take(s.len() as int) =~= s);
        assert(tree_count(s.last()) >= 1);
        assert(b[b.len() - 1] == nodes[base + a.len() + (b.len() - 1)]);
        assert forall|i: int| 0 <= i < tops.len() implies joins(nodes, #[trigger] tops[i]) && ({
            let c = nodes[tops[i].child];
            c.stroke == stroke_table()[((first + i) % 6) as int] && c.fill == fill_table()[((first
                + i) % 6) as int] && c.text == s[i].text@
        }) by {
            if i < d.len() {
                assert(tops[i] == e[i]);
            }
        }
        lemma_child_edges_add(nodes, nodes[0].text, s, tops);
    }
}

/// The links of a plan follow the tree: they join exactly the texts of parents
/// and children, each link leads one level down and has the colour of the node
/// it leads to, and what grows from one branch keeps its colours. The branches of
/// the right wing take the colours of the palette from its start, those of the
/// left wing from its middle.
pub proof fn law_links_follow_the_tree(root: MindmapNodeInput)
    ensures
        edges_of(plan_nodes(root), plan_links(root)) == tree_edges(root),
        all_join(plan_nodes(root), plan_links(root)),
        plan_nodes(root)[0].text == root.text@,
        plan_nodes(root)[0].stroke == ROOT_STROKE,
        plan_nodes(root)[0].fill == ROOT_FILL,
        forall|i: int|
            0 <= i < right_wing(root).len() ==> {
                let c = plan_nodes(root)[(#[trigger] root_links(right_wing(root), 0, 1)[i]).child];
                c.stroke == stroke_table()[i % 6] && c.fill == fill_table()[i % 6] && c.text
                    == right_wing(root)[i].text@
            },
        forall|i: int|
            0 <= i < left_wing(root).len() ==> {
                let c = plan_nodes(root)[(#[trigger] root_links(
                    left_wing(root),
                    3,
                    1 + forest_count(right_wing(root)) as int,
                )[i]).child];
                c.stroke == stroke_table()[(3 + i) % 6] && c.fill == fill_table()[(3 + i) % 6]
                    && c.text == left_wing(root)[i].text@
            },
{
    let kids = root.children@;
    let nodes = plan_nodes(root);
    let (r, l) = (right_wing(root), left_wing(root));
    let base = 1 + forest_count(r);
    let top = seq![crate::mindmap_plan::root_node(root)];
    let (a, b) = (wing_nodes(r, 0), wing_nodes(l, 3));
    lemma_wing_nodes_len(r, 0);
    lemma_wing_nodes_len(l, 3);
    assert(laid_at(nodes, 1, a)) by {
        assert forall|i: int| 0 <= i < a.len() implies nodes[1 + i] == #[trigger] a[i] by {}
    }
    assert(laid_at(nodes, base as int, b)) by {
        assert forall|i: int| 0 <= i < b.len() implies nodes[base + i] == #[trigger] b[i] by {}
    }
    lemma_wing_joined(nodes, r, 0, 1);
    lemma_wing_joined(nodes, l, 3, base as int);
    let (w, x) = (wing_links(r, 0, 1), wing_links(l, 3, base as int));
    let (y, z) = (root_links(r, 0, 1), root_links(l, 3, base as int));
    lemma_join_add(nodes, w, x);
    lemma_join_add(nodes, w + x, y);
    lemma_join_add(nodes, w + x + y, z);
    lemma_edges_add(nodes, w, x);
    lemma_edges_add(nodes, w + x, y);
    lemma_edges_add(nodes, w + x + y, z);
    lemma_wings_hold_all(kids, kids.len(), root.text@);
    assert(kids.take(kids.len() as int) =~= kids);
    assert(edges_of(nodes, plan_links(root)) =~= tree_edges(root));
}

/// Whether `e` is the box of a node: a rectangle in the node's colours, filled, at
/// the place that was laid out for it, in the pen's width for its level.
pub open spec fn shows_node<F>(
    e: ElementV<F>,
    n: NodeV,
    b: NodeBox<F>,
    pen: MindmapPen<F>,
) -> bool {
    &&& n.level == 0 ==> e.style.stroke_width == pen.root_width
    &&& n.level == 1 ==> e.style.stroke_width == pen.branch_width
    &&& n.level > 1 ==> e.style.stroke_width == pen.leaf_width
    &&& e.style.roughness == pen.roughness
    &&& e.style.opacity == pen.opacity
    &&& e.kind is Rectangle
    &&& e.bounds == b.bounds
    &&& e.style.stroke == n.stroke
    &&& e.style.background == Some(n.fill)
    &&& e.style.fill_style == FillStyle::Solid
}

/// Whether `e` is a centred label on the element `id` that reads `text`.
pub open spec fn labels<F>(e: ElementV<F>, id: ElementId, text: Seq<char>) -> bool {
    e.kind matches KindV::Text { text: t, container_id, text_align, .. } && t == text
        && container_id == Some(id) && text_align == TextAlign::Center
}

/// Whether `e` is the curve of a link.
pub open spec fn shows_link<F>(
    e: ElementV<F>,
    l: LinkV,
    p: LinkPath<F>,
    pen: MindmapPen<F>,
) -> bool {
    &&& e.style.stroke_width == pen.link_width
    &&& e.style.roughness == pen.roughness
    &&& e.style.opacity == pen.opacity
    &&& e.kind matches KindV::Line { points } && points == p.points@
    &&& e.bounds == p.bounds
    &&& e.style.stroke == l.stroke
    &&& e.style.line_type == LineType::Curved
    &&& e.style.background is None
}

/// The texts that stand in a list of elements.
pub open spec fn written<F>(s: Seq<ElementV<F>>) -> Multiset<Seq<char>>
    decreases s.len(),
{
    if s.len() == 0 {
        Multiset::empty()
    } else {
        match s.last().kind {
            KindV::Text { text, .. } => written(s.drop_last()).insert(text),
            _ => written(s.drop_last()),
        }
    }
}

/// The texts of a tree, each as often as it occurs.
pub open spec fn tree_texts(n: MindmapNodeInput) -> Multiset<Seq<char>>
    decreases n,
{
    forest_texts(n.children@).insert(n.text@)
}

/// The texts of a list of trees.
pub open spec fn forest_texts(s: Seq<MindmapNodeInput>) -> Multiset<Seq<char>>
    decreases s,
{
    if s.len() == 0 {
        Multiset::empty()
    } else {
        forest_texts(s.drop_last()).add(tree_texts(s.last()))
    }
}

/// The texts of nodes.
spec fn texts_of(nodes: Seq<NodeV>) -> Multiset<Seq<char>>
    decreases nodes.len(),
{
    if nodes.len() == 0 {
        Multiset::empty()
    } else {
        texts_of(nodes.drop_last()).insert(nodes.last().text)
    }
}

proof fn lemma_texts_add(a: Seq<NodeV>, b: Seq<NodeV>)
    ensures
        texts_of(a + b) == texts_of(a).add(texts_of(b)),
    decreases b.len(),
{
    if b.len() == 0 {
        assert(a + b =~= a);
        assert(texts_of(a).add(Multiset::empty()) =~= texts_of(a));
    } else {
        lemma_texts_add(a, b.drop_last());
        assert((a + b).drop_last() =~= a + b.drop_last());
        let x = b.last().text;
        assert(texts_of(a).add(texts_of(b.drop_last())).insert(x) =~= texts_of(a).add(
            texts_of(b.drop_last()).insert(x),
        ));
    }
}

proof fn lemma_subtree_texts(n: MindmapNodeInput, level: nat, branch: nat)
    ensures
        texts_of(subtree_nodes(n, level, branch)) == tree_texts(n),
    decreases n, 0int,
{
    lemma_forest_texts(n.children@, level + 1, branch);
    let nodes = subtree_nodes(n, level, branch);
    assert(nodes.drop_last() =~= forest_nodes(n.children@, level + 1, branch));
}

proof fn lemma_forest_texts(s: Seq<MindmapNodeInput>, level: nat, branch: nat)
    ensures
        texts_of(forest_nodes(s, level, branch)) == forest_texts(s),
    decreases s, 1int,
{
    if s.len() > 0 {
        lemma_forest_texts(s.drop_last(), level, branch);
        lemma_subtree_texts(s.last(), level, branch);
        lemma_texts_add(
            forest_nodes(s.drop_last(), level, branch),
            subtree_nodes(s.last(), level, branch),
        );
    }
}

proof fn lemma_wing_texts(s: Seq<MindmapNodeInput>, first: nat)
    ensures
        texts_of(wing_nodes(s, first)) == forest_texts(s),
    decreases s.len(),
{
    if s.len() > 0 {
        let k = (first + s.len() - 1) as nat;
        lemma_wing_texts(s.drop_last(), first);
        lemma_subtree_texts(s.last(), 1, k);
        lemma_texts_add(wing_nodes(s.drop_last(), first), subtree_nodes(s.last(), 1, k));
    }
}

proof fn lemma_wings_hold_texts(s: Seq<MindmapNodeInput>, k: nat)
    requires
        k <= s.len(),
    ensures
        forest_texts(picked(s, wings(s, k).right)).add(forest_texts(picked(s, wings(s, k).left)))
            == forest_texts(s.take(k as int)),
    decreases k,
{
    let r = picked(s, wings(s, k).right);
    let l = picked(s, wings(s, k).left);
    let t = s.take(k as int);
    if k > 0 {
        let w = wings(s, (k - 1) as nat);
        lemma_wings_hold_texts(s, (k - 1) as nat);
        let (pr, pl) = (picked(s, w.right), picked(s, w.left));
        assert(picked(s, w.right.push(k - 1)).drop_last() =~= pr);
        assert(picked(s, w.left.push(k - 1)).drop_last() =~= pl);
        assert(t.drop_last() =~= s.take(k - 1));
        assert(t.last() == s[k - 1]);
    }
    assert(forest_texts(r).add(forest_texts(l)) =~= forest_texts(t));
}

proof fn lemma_plan_texts(root: MindmapNodeInput)
    ensures
        texts_of(plan_nodes(root)) == tree_texts(root),
{
    let kids = root.children@;
    let (r, l) = (right_wing(root), left_wing(root));
    let top = seq![crate::mindmap_plan::root_node(root)];
    lemma_wing_texts(r, 0);
    lemma_wing_texts(l, 3);
    lemma_texts_add(top, wing_nodes(r, 0));
    lemma_texts_add(top + wing_nodes(r, 0), wing_nodes(l, 3));
    lemma_wings_hold_texts(kids, kids.len());
    assert(kids.take(kids.len() as int) =~= kids);
    assert(top.drop_last() =~= Seq::<NodeV>::empty());
    assert(texts_of(top.drop_last()) == Multiset::<Seq<char>>::empty());
    assert(top.last().text == root.text@);
    assert(texts_of(top) =~= Multiset::empty().insert(root.text@));
    assert(texts_of(plan_nodes(root)) =~= tree_texts(root));
}

/// Whether the elements from place `m` on are the boxes of `nodes`, each with its
/// label right above it. The first box has the identity `root_id`.
pub open spec fn boxes_from<F>(
    s: Seq<ElementV<F>>,
    m: int,
    nodes: Seq<NodeV>,
    boxes: Seq<NodeBox<F>>,
    pen: MindmapPen<F>,
    root_id: ElementId,
) -> bool {
    forall|i: int|
        0 <= i < nodes.len() ==> {
            let e = s[m + 2 * i];
            &&& shows_node(e, #[trigger] nodes[i], boxes[i], pen)
            &&& labels(s[m + 2 * i + 1], e.id, nodes[i].text)
            &&& lies_at(s[m + 2 * i + 1], boxes[i])
            &&& i == 0 ==> e.id == root_id
        }
}

/// Whether a label lies where it was laid out for its node and wraps at the width
/// that was laid out for it.
pub open spec fn lies_at<F>(e: ElementV<F>, b: NodeBox<F>) -> bool {
    &&& e.bounds.x == b.label.at.x
    &&& e.bounds.y == b.label.at.y
    &&& e.kind is Text
    &&& e.kind->wrap_width == Some(b.label.wrap)
}

proof fn lemma_nodes_drawn<F>(
    b: BoardV<F>,
    nodes: Seq<NodeV>,
    boxes: Seq<NodeBox<F>>,
    pen: MindmapPen<F>,
    root_id: ElementId,
    fresh: Seq<Fresh>,
    n: int,
)
    requires
        0 <= n <= nodes.len(),
    ensures
        ({
            let s = b.nodes_drawn(nodes, boxes, pen, root_id, fresh, n).scene;
            let m = b.scene.len() as int;
            &&& s.len() == m + 2 * n
            &&& s.take(m) == b.scene
            &&& boxes_from(s, m, nodes.take(n), boxes, pen, root_id)
            &&& written(s.skip(m)) == texts_of(nodes.take(n))
        }),
    decreases n,
{
    let s = b.nodes_drawn(nodes, boxes, pen, root_id, fresh, n).scene;
    let m = b.scene.len() as int;
    if n == 0 {
        assert(s.take(m) =~= b.scene);
        assert(s.skip(m) =~= Seq::<ElementV<F>>::empty());
        assert(nodes.take(0) =~= Seq::<NodeV>::empty());
    } else {
        lemma_nodes_drawn(b, nodes, boxes, pen, root_id, fresh, n - 1);
        let t = b.nodes_drawn(nodes, boxes, pen, root_id, fresh, n - 1).scene;
        assert(s.take(t.len() as int) =~= t);
        assert(s.take(m) =~= t.take(m));
        assert(nodes.take(n).drop_last() =~= nodes.take(n - 1));
        assert(s.skip(m).drop_last().drop_last() =~= t.skip(m));
        assert(s.skip(m).last() == s[m + 2 * n - 1]);
        assert(s.skip(m).drop_last().last() == s[m + 2 * n - 2]);
        assert(s[m + 2 * n - 2].kind is Rectangle);
        assert(written(s.skip(m).drop_last()) == written(t.skip(m)));
        assert(labels(s[m + 2 * n - 1], s[m + 2 * n - 2].id, nodes[n - 1].text));
        assert(nodes.take(n).last() == nodes[n - 1]);
        assert(written(s.skip(m)) == texts_of(nodes.take(n)));
        assert forall|i: int| 0 <= i < nodes.take(n).len() implies ({
            let e = s[m + 2 * i];
            &&& shows_node(e, #[trigger] nodes.take(n)[i], boxes[i], pen)
            &&& labels(s[m + 2 * i + 1], e.id, nodes.take(n)[i].text)
            &&& lies_at(s[m + 2 * i + 1], boxes[i])
            &&& i == 0 ==> e.id == root_id
        }) by {
            if i < n - 1 {
                assert(nodes.take(n)[i] == nodes.take(n - 1)[i]);
                assert(s[m + 2 * i] == t[m + 2 * i]);
                assert(s[m + 2 * i + 1] == t[m + 2 * i + 1]);
            }
        }
    }
}

/// Whether `s` is `before` with a mind map of `root` over it: first the curves of its
/// links, then a filled rectangle for every node, each with a label that reads the
/// node's own text; the root's has the identity `id`. What is written by it are the
/// texts of the tree, each as often as it occurs there.
pub open spec fn shows_tree<F>(
    s: Seq<ElementV<F>>,
    before: Seq<ElementV<F>>,
    root: MindmapNodeInput,
    boxes: Seq<NodeBox<F>>,
    paths: Seq<LinkPath<F>>,
    pen: MindmapPen<F>,
    id: ElementId,
) -> bool {
    let (links, nodes) = (plan_links(root), plan_nodes(root));
    let m = before.len() + links.len();
    &&& s.len() == m + 2 * tree_count(root)
    &&& s.take(before.len() as int) == before
    &&& forall|i: int|
        0 <= i < links.len() ==> shows_link(
            s[before.len() + i],
            #[trigger] links[i],
            paths[i],
            pen,
        )
    &&& boxes_from(s, m as int, nodes, boxes, pen, id)
    &&& written(s.skip(m as int)) == tree_texts(root)
}

pub(crate) proof fn lemma_mindmap_drawn<F>(
    b: BoardV<F>,
    root: MindmapNodeInput,
    boxes: Seq<NodeBox<F>>,
    paths: Seq<LinkPath<F>>,
    pen: MindmapPen<F>,
    id: ElementId,
    fresh: Seq<Fresh>,
)
    ensures
        shows_tree(
            b.mindmap_drawn(root, boxes, paths, pen, id, fresh).scene,
            b.scene,
            root,
            boxes,
            paths,
            pen,
            id,
        ),
{
    let s = b.mindmap_drawn(root, boxes, paths, pen, id, fresh).scene;
    let (links, nodes) = (plan_links(root), plan_nodes(root));
    let rest = fresh.skip(links.len() as int);
    let c = BoardV { history: b.history.recorded(b.scene), ..b }.links_drawn(
        links,
        paths,
        pen,
        fresh,
    );
    law_every_other_node_has_one_link(root);
    lemma_plan_texts(root);
    lemma_nodes_drawn(c, nodes, boxes, pen, id, rest, nodes.len() as int);
    assert(nodes.take(nodes.len() as int) =~= nodes);
    assert(s == c.nodes_drawn(nodes, boxes, pen, id, rest, nodes.len() as int).scene);
    let m = c.scene.len() as int;
    assert forall|i: int| 0 <= i < links.len() implies shows_link(
        s[b.scene.len() + i],
        #[trigger] links[i],
        paths[i],
        pen,
    ) by {
        assert(s.take(m)[b.scene.len() + i] == s[b.scene.len() + i]);
    }
    assert(s.take(b.scene.len() as int) =~= b.scene) by {
        assert forall|i: int| 0 <= i < b.scene.len() implies s[i] == b.scene[i] by {
            assert(s.take(m)[i] == s[i]);
        }
    }
}

/// Whether a rectangle lies at place `k` and above it a text bound to it that reads
/// `text`.
pub open spec fn reads_its_text<F>(s: Seq<ElementV<F>>, k: int, text: Seq<char>) -> bool {
    &&& s[k].kind is Rectangle
    &&& s[k + 1].kind is Text
    &&& s[k + 1].kind->container_id == Some(s[k].id)
    &&& s[k + 1].kind->Text_text == text
}

/// A drawn mind map shows its tree. Over what was there lie the curves of its
/// links, and over them a filled rectangle for every node, each with a label that
/// reads the node's own text; the root's has the given identity. What is written
/// on the board by it are the texts of the tree, each as often as it occurs there.
pub proof fn law_mindmaps_show_their_tree<F>(
    b: BoardV<F>,
    root: MindmapNodeInput,
    boxes: Vec<NodeBox<F>>,
    paths: Vec<LinkPath<F>>,
    pen: MindmapPen<F>,
    id: ElementId,
    fresh: Seq<Fresh>,
)
    requires
        op_fits(b.scene, CanvasOp::Mindmap { root, boxes, paths, pen }),
    ensures
        ({
            let s = op_applied(b, CanvasOp::Mindmap { root, boxes, paths, pen }, Some(id), fresh).scene;
            let nodes = plan_nodes(root);
            let m = (b.scene.len() + plan_links(root).len()) as int;
            &&& shows_tree(s, b.scene, root, boxes@, paths@, pen, id)
            &&& forall|i: int|
                0 <= i < nodes.len() ==> #[trigger] reads_its_text(s, m + 2 * i, nodes[i].text)
            &&& written(s.skip(m)) == tree_texts(root)
        }),
{
    reveal(op_effect);
    reveal(op_outcome);
    lemma_mindmap_drawn(b, root, boxes@, paths@, pen, id, fresh);
    let s = op_applied(b, CanvasOp::Mindmap { root, boxes, paths, pen }, Some(id), fresh).scene;
    let nodes = plan_nodes(root);
    let m = (b.scene.len() + plan_links(root).len()) as int;
    assert(s == b.mindmap_drawn(root, boxes@, paths@, pen, id, fresh).scene);
    assert(boxes_from(s, m, nodes, boxes@, pen, id));
    assert forall|i: int| 0 <= i < nodes.len() implies #[trigger] reads_its_text(
        s,
        m + 2 * i,
        nodes[i].text,
    ) by {
        assert(shows_node(s[m + 2 * i], nodes[i], boxes@[i], pen));
    }
}

/// A copied tree has the same texts in the same places.
pub proof fn law_copied_trees_hold_the_same_texts(a: MindmapNodeInput, b: MindmapNodeInput)
    requires
        crate::mindmap::same_tree(a, b),
    ensures
        a.text@ == b.text@,
        a.children@.len() == b.children@.len(),
        tree_texts(a) == tree_texts(b),
        tree_edges(a) == tree_edges(b),
        tree_count(a) == tree_count(b),
    decreases a, 0int,
{
    lemma_copied_forests(a.children@, b.children@, a.text@);
}

proof fn lemma_copied_forests(
    s: Seq<MindmapNodeInput>,
    t: Seq<MindmapNodeInput>,
    text: Seq<char>,
)
    requires
        crate::mindmap::same_forest(s, t),
    ensures
        s.len() == t.len(),
        forest_texts(s) == forest_texts(t),
        forest_edges(s) == forest_edges(t),
        child_edges(text, s) == child_edges(text, t),
        forest_count(s) == forest_count(t),
    decreases s, 1int,
{
    if s.len() > 0 {
        lemma_copied_forests(s.drop_last(), t.drop_last(), text);
        law_copied_trees_hold_the_same_texts(s.last(), t.last());
    }
}

/// Full-width characters are those of Chinese text; letters, digits and blanks of
/// English text are narrow.
pub proof fn law_chinese_characters_are_wide(c: char)
    ensures
        0x4E00 <= c as u32 <= 0x9FFF ==> crate::mindmap::cjk(c),
        0x3000 <= c as u32 <= 0x303F ==> crate::mindmap::cjk(c),
        0xF900 <= c as u32 <= 0xFAFF ==> crate::mindmap::cjk(c),
        0xFF00 <= c as u32 <= 0xFFEF ==> crate::mindmap::cjk(c),
        (c as u32) < 0x3000 ==> !crate::mindmap::cjk(c),
        0x3040 <= c as u32 <= 0x4DFF ==> !crate::mindmap::cjk(c),
        0xA000 <= c as u32 <= 0xF8FF ==> !crate::mindmap::cjk(c),
        0xFFF0 <= c as u32 ==> !crate::mindmap::cjk(c),
{
}

/// A branch grows on the side that carries fewer leaves so far, and to the right
/// when the sides are even; the first one grows to the right.
pub proof fn law_branches_grow_on_the_lighter_side(s: Seq<MindmapNodeInput>, k: nat)
    requires
        k < s.len(),
    ensures
        ({
            let (w, v) = (wings(s, k), wings(s, k + 1));
            &&& w.right_weight <= w.left_weight ==> v.right == w.right.push(k as int) && v.left
                == w.left && v.right_weight == w.right_weight + crate::mindmap::tree_leaves(
                s[k as int],
            )
            &&& w.right_weight > w.left_weight ==> v.left == w.left.push(k as int) && v.right
                == w.right && v.left_weight == w.left_weight + crate::mindmap::tree_leaves(
                s[k as int],
            )
            &&& wings(s, 0).right.len() == 0 && wings(s, 0).left.len() == 0
            &&& wings(s, 1).right == seq![0int]
        }),
{
    reveal_with_fuel(wings, 3);
    assert(wings(s, 1).right =~= seq![0int]);
}

} // verus!
