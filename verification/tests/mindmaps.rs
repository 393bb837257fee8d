use boundless::board_text::LabelBox;
use boundless::element::{WBounds, WPoint};
use boundless::mindmap::{
    count_leaves, count_nodes, is_cjk, max_depth, palette_fill, palette_stroke, MindmapNodeInput, ROOT_FILL,
    ROOT_STROKE,
};
use boundless::mindmap_layout::{layout, LinkPath, NodeBox};
use boundless::mindmap_plan::{plan, MindmapPlan};

fn leaf(t: &str) -> MindmapNodeInput {
    MindmapNodeInput::new(t.to_string(), vec![])
}

fn branch(t: &str, leaves: &[&str]) -> MindmapNodeInput {
    MindmapNodeInput::new(t.to_string(), leaves.iter().map(|l| leaf(l)).collect())
}

fn sample_tree() -> MindmapNodeInput {
    MindmapNodeInput::new(
        "高效学习方法".to_string(),
        vec![
            branch("主动回忆", &["自测", "闪卡", "费曼技巧"]),
            branch("间隔重复", &["艾宾浩斯", "Anki", "周期复习"]),
            branch("深度加工", &["类比", "举例", "跨学科联系"]),
            branch("专注环境", &["番茄钟", "远离手机", "固定时段"]),
        ],
    )
}

fn node_box(i: usize) -> NodeBox<i32> {
    let k = i as i32;
    NodeBox {
        bounds: WBounds { x: k, y: 0, w: 1, h: 1 },
        label: LabelBox { at: WPoint { x: k, y: 1 }, wrap: 9, zero: 0, line_box: 2 },
    }
}

fn link_path(i: usize) -> LinkPath<i32> {
    let k = i as i32;
    LinkPath {
        points: vec![WPoint { x: k, y: 0 }, WPoint { x: k, y: 1 }, WPoint { x: k, y: 2 }],
        bounds: WBounds { x: k, y: 0, w: 0, h: 2 },
    }
}

fn parents(p: &MindmapPlan, node: usize) -> usize {
    p.links.iter().filter(|l| l.child == node).count()
}

#[test]
fn root_is_first_and_centered() {
    let l = plan(&sample_tree());
    let root = &l.nodes[0];
    assert_eq!(root.level, 0);
    assert_eq!(root.text, "高效学习方法");
    assert_eq!((root.stroke, root.fill), (ROOT_STROKE, ROOT_FILL));
}

#[test]
fn branches_split_both_sides() {
    let l = plan(&sample_tree());
    assert_eq!(l.right, vec![0, 2]);
    assert_eq!(l.left, vec![1, 3]);
    let tree = sample_tree();
    let right: usize = l.right.iter().map(|k| count_nodes(&tree.children[*k])).sum();
    let left: usize = l.left.iter().map(|k| count_nodes(&tree.children[*k])).sum();
    assert!(right >= 4, "right wing too small: {right}");
    assert!(left >= 4, "left wing too small: {left}");
}

#[test]
fn every_non_root_node_has_one_link() {
    let l = plan(&sample_tree());
    assert_eq!(l.nodes.len(), 17);
    assert_eq!(l.links.len(), l.nodes.len() - 1);
    assert_eq!(parents(&l, 0), 0);
    for k in 1..l.nodes.len() {
        assert_eq!(parents(&l, k), 1, "node {k}");
    }
    for link in &l.links {
        assert_eq!(l.nodes[link.child].level, l.nodes[link.parent].level + 1);
        assert_eq!(link.stroke, l.nodes[link.child].stroke);
    }
}

#[test]
fn layout_is_deterministic() {
    let t = sample_tree();
    assert_eq!(plan(&t), plan(&t));
}

#[test]
fn single_root_layouts_fine() {
    let boxes = vec![node_box(0)];
    let l = layout(&leaf("只有根"), &boxes, &vec![]);
    assert_eq!(l.nodes.len(), 1);
    assert!(l.links.is_empty());
    assert_eq!(l.nodes[0].text, "只有根");
}

#[test]
fn deep_chains_have_one_node_a_level() {
    let mut n = leaf("第五层");
    for t in ["第四层", "第三层", "第二层", "根"] {
        n = MindmapNodeInput::new(t.to_string(), vec![n]);
    }
    let p = plan(&n);
    let mut levels: Vec<usize> = p.nodes.iter().map(|n| n.level).collect();
    levels.sort();
    assert_eq!(levels, vec![0, 1, 2, 3, 4]);
    assert_eq!(p.nodes[1].text, "第五层");
    assert!(p.left.is_empty());
}

#[test]
fn a_layout_puts_the_plan_in_its_boxes() {
    let t = sample_tree();
    let p = plan(&t);
    let boxes: Vec<NodeBox<i32>> = (0..17).map(node_box).collect();
    let paths: Vec<LinkPath<i32>> = (0..16).map(link_path).collect();
    let l = layout(&t, &boxes, &paths);
    assert_eq!(l.nodes.len(), 17);
    for (k, n) in l.nodes.iter().enumerate() {
        assert_eq!(n.text, p.nodes[k].text);
        assert_eq!(n.place.bounds.x, k as i32);
        assert_eq!((n.stroke, n.fill), (p.nodes[k].stroke, p.nodes[k].fill));
    }
    for (k, n) in l.links.iter().enumerate() {
        assert_eq!(n.path.points, link_path(k).points);
        assert_eq!(n.stroke, p.links[k].stroke);
    }
}

#[test]
fn opposite_branches_have_other_colours() {
    let p = plan(&sample_tree());
    let branches: Vec<u32> = p.nodes.iter().filter(|n| n.level == 1).map(|n| n.stroke).collect();
    assert_eq!(branches.len(), 4);
    for i in 0..4 {
        for j in i + 1..4 {
            assert_ne!(branches[i], branches[j]);
        }
    }
    assert_eq!(branches[0], palette_stroke(0));
    assert_eq!(branches[2], palette_stroke(3));
    assert_eq!(palette_fill(7), palette_fill(1));
}

#[test]
fn only_chains_are_as_deep_as_large() {
    let chain = MindmapNodeInput::new("a".to_string(), vec![branch("b", &["c"])]);
    assert_eq!((max_depth(&chain), count_nodes(&chain)), (3, 3));
    let tree = sample_tree();
    assert_eq!((max_depth(&tree), count_nodes(&tree), count_leaves(&tree)), (3, 17, 12));
    assert_eq!(tree.clone(), tree);
}

#[test]
fn leaves_are_counted() {
    assert_eq!(count_leaves(&sample_tree()), 12);
    assert_eq!(count_leaves(&leaf("x")), 1);
    assert!(is_cjk('汉') && is_cjk('。') && !is_cjk('a'));
}
