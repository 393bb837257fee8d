use boundless::mindmap::{count_nodes, max_depth, MindmapNodeInput};
use boundless::pages::PageRatio;
use boundless::templates::sanitize_name;

fn leaf(t: &str) -> MindmapNodeInput {
    MindmapNodeInput::new(t.to_string(), vec![])
}

fn branch(t: &str, leaves: &[&str]) -> MindmapNodeInput {
    MindmapNodeInput::new(t.to_string(), leaves.iter().map(|l| leaf(l)).collect())
}

fn sample_tree() -> MindmapNodeInput {
    MindmapNodeInput::new(
        "高效学习方法".to_string(),
        vec![
            branch("主动回忆", &["自测", "闪卡", "费曼技巧"]),
            branch("间隔重复", &["艾宾浩斯", "Anki", "周期复习"]),
            branch("深度加工", &["类比", "举例", "跨学科联系"]),
            branch("专注环境", &["番茄钟", "远离手机", "固定时段"]),
        ],
    )
}

#[test]
fn counts_and_depth() {
    let t = sample_tree();
    assert_eq!(count_nodes(&t), 17);
    assert_eq!(max_depth(&t), 3);
    assert_eq!(max_depth(&leaf("根")), 1);
}

#[test]
fn parses_ratio_strings() {
    assert_eq!(PageRatio::parse("16:9"), Some(PageRatio::Ratio16_9));
    assert_eq!(PageRatio::parse(" 9:16 "), Some(PageRatio::Ratio9_16));
    assert_eq!(PageRatio::parse("4:3"), Some(PageRatio::Ratio4_3));
    assert_eq!(PageRatio::parse("21:9"), None);
    assert_eq!(PageRatio::parse("abc"), None);
}

#[test]
fn white_space_in_a_ratio_does_not_matter() {
    assert_eq!(PageRatio::parse("\t16:9\n"), Some(PageRatio::Ratio16_9));
    assert_eq!(PageRatio::parse("4 :\u{3000}3"), Some(PageRatio::Ratio4_3));
    assert_eq!(PageRatio::parse("\n"), None);
}

#[test]
fn sanitize_name_strips_separators_and_caps_length() {
    assert_eq!(sanitize_name(" 小明 ").unwrap(), "小明");
    assert_eq!(sanitize_name("a/b\\c:d").unwrap(), "abcd");
    assert!(sanitize_name("  ").is_err());
    assert!(sanitize_name("/\\").is_err());
    let long: String = "字".repeat(30);
    assert_eq!(sanitize_name(&long).unwrap().chars().count(), 24);
}
