//! Mind maps: from a tree of texts to the list of nodes and links to draw.
//!
//! The plan fixes everything about a mind map that is not a coordinate: which
//! branch goes to which wing, in which order the nodes appear, their levels
//! and colours, and which node each link joins to which.

use vstd::prelude::*;

verus! {

/// One node of the input tree: a text and its children.
#[derive(Debug, PartialEq)]
pub struct MindmapNodeInput {
    pub text: String,
    pub children: Vec<MindmapNodeInput>,
}

impl MindmapNodeInput {
    /// A node with the given text and children.
    pub fn new(text: String, children: Vec<MindmapNodeInput>) -> (r: Self)
        ensures
            r.text == text,
            r.children == children,
    {
        MindmapNodeInput { text, children }
    }
}

/// Whether two trees have the same texts in the same places.
pub open spec fn same_tree(a: MindmapNodeInput, b: MindmapNodeInput) -> bool
    decreases a,
{
    a.text@ == b.text@ && same_forest(a.children@, b.children@)
}

/// Whether two lists of trees agree tree by tree.
pub open spec fn same_forest(s: Seq<MindmapNodeInput>, t: Seq<MindmapNodeInput>) -> bool
    decreases s,
{
    s.len() == t.len() && (s.len() > 0 ==> same_forest(s.drop_last(), t.drop_last()) && same_tree(
        s.last(),
        t.last(),
    ))
}

/// Copies a tree.
fn copy_tree(node: &MindmapNodeInput) -> (r: MindmapNodeInput)
    ensures
        same_tree(*node, r),
    decreases *node,
{
    let mut children: Vec<MindmapNodeInput> = Vec::new();
    let mut i: usize = 0;
    let ghost kids = node.children@;
    while i < node.children.len()
        invariant
            i <= node.children.len(),
            kids == node.children@,
            decreases_to!(*node => kids),
            same_forest(kids.take(i as int), children@),
        decreases node.children.len() - i,
    {
        assert(decreases_to!(kids => kids[i as int]));
        let ghost before = children@;
        children.push(copy_tree(&node.children[i]));
        i += 1;
        assert(kids.take(i as int).drop_last() =~= kids.take(i - 1));
        assert(children@.drop_last() =~= before);
    }
    assert(kids.take(kids.len() as int) =~= kids);
    MindmapNodeInput { text: node.text.clone(), children }
}

impl Clone for MindmapNodeInput {
    fn clone(&self) -> (r: Self)
        ensures
            same_tree(*self, r),
    {
        copy_tree(self)
    }
}

/// The number of nodes of a tree.
pub open spec fn tree_count(n: MindmapNodeInput) -> nat
    decreases n,
{
    1 + forest_count(n.children@)
}

/// The number of nodes of a list of trees.
pub open spec fn forest_count(s: Seq<MindmapNodeInput>) -> nat
    decreases s,
{
    if s.len() == 0 {
        0
    } else {
        forest_count(s.drop_last()) + tree_count(s.last())
    }
}

/// The number of nodes on the longest path from the root to a leaf.
pub open spec fn tree_depth(n: MindmapNodeInput) -> nat
    decreases n,
{
    1 + forest_depth(n.children@)
}

/// The greatest depth in a list of trees; zero for none.
pub open spec fn forest_depth(s: Seq<MindmapNodeInput>) -> nat
    decreases s,
{
    if s.len() == 0 {
        0
    } else if forest_depth(s.drop_last()) >= tree_depth(s.last()) {
        forest_depth(s.drop_last())
    } else {
        tree_depth(s.last())
    }
}

/// The number of leaves of a tree.
pub open spec fn tree_leaves(n: MindmapNodeInput) -> nat
    decreases n,
{
    if n.children@.len() == 0 {
        1
    } else {
        forest_leaves(n.children@)
    }
}

/// The number of leaves of a list of trees.
pub open spec fn forest_leaves(s: Seq<MindmapNodeInput>) -> nat
    decreases s,
{
    if s.len() == 0 {
        0
    } else {
        forest_leaves(s.drop_last()) + tree_leaves(s.last())
    }
}

proof fn lemma_count_monotone(s: Seq<MindmapNodeInput>, k: int)
    requires
        0 <= k <= s.len(),
    ensures
        forest_count(s.take(k)) <= forest_count(s),
        k < s.len() ==> forest_count(s.take(k)) + tree_count(s[k]) <= forest_count(s),
        k < s.len() ==> forest_count(s.take(k + 1)) == forest_count(s.take(k)) + tree_count(s[k]),
    decreases s.len(),
{
    if k < s.len() {
        assert(s.take(k + 1).drop_last() =~= s.take(k));
    }
    if k == s.len() {
        assert(s.take(k) =~= s);
    } else if k + 1 == s.len() {
        assert(s.take(k + 1) =~= s);
    } else {
        lemma_count_monotone(s.drop_last(), k);
        assert(s.drop_last().take(k) =~= s.take(k));
    }
}

proof fn lemma_depth_monotone(s: Seq<MindmapNodeInput>, k: int)
    requires
        0 <= k < s.len(),
    ensures
        tree_depth(s[k]) <= forest_depth(s),
        forest_depth(s.take(k)) <= forest_depth(s),
        forest_depth(s.take(k + 1)) == (if forest_depth(s.take(k)) >= tree_depth(s[k]) {
            forest_depth(s.take(k))
        } else {
            tree_depth(s[k])
        }),
    decreases s.len(),
{
    assert(s.take(k + 1).drop_last() =~= s.take(k));
    if k + 1 == s.len() {
        assert(s.take(k + 1) =~= s);
    } else {
        lemma_depth_monotone(s.drop_last(), k);
        assert(s.drop_last().take(k) =~= s.take(k));
    }
}

proof fn lemma_leaves_monotone(s: Seq<MindmapNodeInput>, k: int)
    requires
        0 <= k < s.len(),
    ensures
        forest_leaves(s.take(k)) + tree_leaves(s[k]) <= forest_leaves(s),
        forest_leaves(s.take(k + 1)) == forest_leaves(s.take(k)) + tree_leaves(s[k]),
    decreases s.len(),
{
    assert(s.take(k + 1).drop_last() =~= s.take(k));
    if k + 1 == s.len() {
        assert(s.take(k + 1) =~= s);
    } else {
        lemma_leaves_monotone(s.drop_last(), k);
        assert(s.drop_last().take(k) =~= s.take(k));
    }
}

/// A tree has at least one leaf, at least as many nodes as leaves, and at
/// least as many nodes as levels.
pub proof fn law_leaves_and_depth_within_count(n: MindmapNodeInput)
    ensures
        1 <= tree_leaves(n) <= tree_count(n),
        1 <= tree_depth(n) <= tree_count(n),
    decreases n, 0int,
{
    lemma_forest_bounds(n.children@);
}

proof fn lemma_forest_bounds(s: Seq<MindmapNodeInput>)
    ensures
        forest_leaves(s) <= forest_count(s),
        forest_depth(s) <= forest_count(s),
        s.len() > 0 ==> 1 <= forest_leaves(s),
    decreases s, 1int,
{
    if s.len() > 0 {
        lemma_forest_bounds(s.drop_last());
        law_leaves_and_depth_within_count(s.last());
    }
}

/// The depth of a tree is that of its longest path: one for a lone node, else
/// one more than the greatest depth among the children.
pub proof fn law_depth_is_the_longest_path(n: MindmapNodeInput)
    ensures
        n.children@.len() == 0 ==> tree_depth(n) == 1,
        forall|i: int|
            0 <= i < n.children@.len() ==> 1 + tree_depth(#[trigger] n.children@[i]) <= tree_depth(n),
        n.children@.len() > 0 ==> exists|i: int|
            0 <= i < n.children@.len() && tree_depth(n) == 1 + tree_depth(
                #[trigger] n.children@[i],
            ),
{
    let s = n.children@;
    assert forall|i: int| 0 <= i < s.len() implies 1 + tree_depth(#[trigger] s[i]) <= tree_depth(
        n,
    ) by {
        lemma_depth_monotone(s, i);
    }
    if s.len() > 0 {
        lemma_depth_reached(s);
    }
}

proof fn lemma_depth_reached(s: Seq<MindmapNodeInput>)
    requires
        s.len() > 0,
    ensures
        exists|i: int| 0 <= i < s.len() && forest_depth(s) == tree_depth(#[trigger] s[i]),
    decreases s.len(),
{
    let d = s.drop_last();
    if forest_depth(d) >= tree_depth(s.last()) {
        law_leaves_and_depth_within_count(s.last());
        lemma_depth_reached(d);
        let i = choose|i: int| 0 <= i < d.len() && forest_depth(d) == tree_depth(#[trigger] d[i]);
        assert(forest_depth(s) == tree_depth(s[i]));
    } else {
        assert(forest_depth(s) == tree_depth(s[s.len() - 1]));
    }
}

/// Whether no node of a tree has two children or more.
pub open spec fn is_chain(n: MindmapNodeInput) -> bool
    decreases n,
{
    n.children@.len() == 0 || (n.children@.len() == 1 && is_chain(n.children@[0]))
}

/// A tree has as many nodes as levels exactly when it does not branch.
pub proof fn law_only_chains_are_as_deep_as_large(n: MindmapNodeInput)
    ensures
        tree_depth(n) == tree_count(n) <==> is_chain(n),
    decreases n,
{
    let s = n.children@;
    if s.len() == 0 {
        assert(forest_depth(s) == 0 && forest_count(s) == 0);
    } else if s.len() == 1 {
        assert(decreases_to!(n => n.children@));
        assert(decreases_to!(s => s[0]));
        law_only_chains_are_as_deep_as_large(s[0]);
        assert(forest_depth(s.drop_last()) == 0 && forest_count(s.drop_last()) == 0);
        law_leaves_and_depth_within_count(s[0]);
    } else if s.len() > 1 {
        lemma_forest_bounds(s.drop_last());
        law_leaves_and_depth_within_count(s.last());
        assert(forest_count(s.drop_last()) >= tree_count(s.drop_last().last()));
    }
}

/// The leaves of a tree that is more than a lone node are those of its
/// children, added up.
pub proof fn law_leaves_add_up(n: MindmapNodeInput)
    ensures
        n.children@.len() == 0 ==> tree_leaves(n) == 1,
        n.children@.len() > 0 ==> tree_leaves(n) == n.children@.fold_left(
            0nat,
            |sum: nat, c: MindmapNodeInput| sum + tree_leaves(c),
        ),
{
    lemma_leaves_fold(n.children@);
}

proof fn lemma_leaves_fold(s: Seq<MindmapNodeInput>)
    ensures
        forest_leaves(s) == s.fold_left(
            0nat,
            |sum: nat, c: MindmapNodeInput| sum + tree_leaves(c),
        ),
    decreases s.len(),
{
    if s.len() > 0 {
        lemma_leaves_fold(s.drop_last());
    }
}

/// Counts the nodes of a tree.
pub fn count_nodes(root: &MindmapNodeInput) -> (r: usize)
    requires
        tree_count(*root) <= usize::MAX,
    ensures
        r == tree_count(*root),
    decreases *root,
{
    let mut sum: usize = 1;
    let mut i: usize = 0;
    let ghost kids = root.children@;
    while i < root.children.len()
        invariant
            i <= root.children.len(),
            kids == root.children@,
            decreases_to!(*root => kids),
            tree_count(*root) <= usize::MAX,
            sum == 1 + forest_count(kids.take(i as int)),
        decreases root.children.len() - i,
    {
        proof {
            lemma_count_monotone(kids, i as int);
        }
        assert(decreases_to!(kids => kids[i as int]));
        let c: usize = count_nodes(&root.children[i]);
        sum = sum + c;
        i += 1;
    }
    assert(kids.take(kids.len() as int) =~= kids);
    sum
}

/// The longest path from the root to a leaf, in nodes.
pub fn max_depth(root: &MindmapNodeInput) -> (r: usize)
    requires
        tree_depth(*root) <= usize::MAX,
    ensures
        r == tree_depth(*root),
    decreases *root,
{
    let mut deepest: usize = 0;
    let mut i: usize = 0;
    let ghost kids = root.children@;
    while i < root.children.len()
        invariant
            i <= root.children.len(),
            kids == root.children@,
            decreases_to!(*root => kids),
            tree_depth(*root) <= usize::MAX,
            deepest == forest_depth(kids.take(i as int)),
            deepest <= forest_depth(kids),
        decreases root.children.len() - i,
    {
        proof {
            lemma_depth_monotone(kids, i as int);
        }
        assert(decreases_to!(kids => kids[i as int]));
        let d: usize = max_depth(&root.children[i]);
        if d > deepest {
            deepest = d;
        }
        i += 1;
    }
    assert(kids.take(kids.len() as int) =~= kids);
    1 + deepest
}

/// Counts the leaves of a tree.
pub fn count_leaves(node: &MindmapNodeInput) -> (r: usize)
    requires
        tree_leaves(*node) <= usize::MAX,
    ensures
        r == tree_leaves(*node),
    decreases *node,
{
    if node.children.len() == 0 {
        return 1;
    }
    let mut sum: usize = 0;
    let mut i: usize = 0;
    let ghost kids = node.children@;
    while i < node.children.len()
        invariant
            i <= node.children.len(),
            kids == node.children@,
            kids.len() > 0,
            decreases_to!(*node => kids),
            tree_leaves(*node) <= usize::MAX,
            sum == forest_leaves(kids.take(i as int)),
        decreases node.children.len() - i,
    {
        proof {
            lemma_leaves_monotone(kids, i as int);
        }
        assert(decreases_to!(kids => kids[i as int]));
        let c: usize = count_leaves(&node.children[i]);
        sum = sum + c;
        i += 1;
    }
    assert(kids.take(kids.len() as int) =~= kids);
    sum
}

/// Whether a character is drawn full-width.
pub open spec fn cjk(c: char) -> bool {
    let u = c as u32;
    0x3000 <= u <= 0x303F || 0x4E00 <= u <= 0x9FFF || 0xF900 <= u <= 0xFAFF || 0xFF00 <= u <= 0xFFEF
}

/// Decides [`cjk`].
pub fn is_cjk(c: char) -> (r: bool)
    ensures
        r == cjk(c),
{
    let u: u32 = c as u32;
    (0x3000 <= u && u <= 0x303F) || (0x4E00 <= u && u <= 0x9FFF) || (0xF900 <= u && u <= 0xFAFF) || (
    0xFF00 <= u && u <= 0xFFEF)
}

/// The number of colours that branches cycle through.
pub const PALETTE_LEN: usize = 6;

/// The outline colour of the root.
pub const ROOT_STROKE: u32 = 0x1E1E1E;

/// The fill colour of the root.
pub const ROOT_FILL: u32 = 0xFFE3A3;

/// The outline colours of the branches.
pub open spec fn stroke_table() -> Seq<u32> {
    seq![0xE8590Cu32, 0x1971C2u32, 0x2F9E44u32, 0xE03131u32, 0x9C36B5u32, 0x0B7285u32]
}

/// The fill colours of the branches.
pub open spec fn fill_table() -> Seq<u32> {
    seq![0xFFE8D9u32, 0xE3F0FCu32, 0xE6F6EAu32, 0xFDEBEBu32, 0xF6EAFBu32, 0xE3FAFCu32]
}

/// The outline colour of a branch.
pub fn palette_stroke(branch: usize) -> (r: u32)
    ensures
        r == stroke_table()[(branch % 6) as int],
{
    let k: usize = branch % PALETTE_LEN;
    if k == 0 {
        0xE8590C
    } else if k == 1 {
        0x1971C2
    } else if k == 2 {
        0x2F9E44
    } else if k == 3 {
        0xE03131
    } else if k == 4 {
        0x9C36B5
    } else {
        0x0B7285
    }
}

/// The fill colour of a branch.
pub fn palette_fill(branch: usize) -> (r: u32)
    ensures
        r == fill_table()[(branch % 6) as int],
{
    let k: usize = branch % PALETTE_LEN;
    if k == 0 {
        0xFFE8D9
    } else if k == 1 {
        0xE3F0FC
    } else if k == 2 {
        0xE6F6EA
    } else if k == 3 {
        0xFDEBEB
    } else if k == 4 {
        0xF6EAFB
    } else {
        0xE3FAFC
    }
}

/// Branches that face each other across the root have different colours: the
/// left wing starts half-way through the palette.
pub proof fn law_opposite_branches_differ(i: nat)
    ensures
        stroke_table()[(i % 6) as int] != stroke_table()[((i + 3) % 6) as int],
        fill_table()[(i % 6) as int] != fill_table()[((i + 3) % 6) as int],
{
    let k = i % 6;
    assert((i + 3) % 6 == (if k < 3 {
        k + 3
    } else {
        (k - 3) as nat
    }));
}

} // verus!
