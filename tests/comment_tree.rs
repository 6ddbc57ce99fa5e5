use lemmy_ui_core::comment_tree::{comment_nodes, partition, path_segments, CommentNode, CommentRecord};

fn rec(id: i32, path: &str) -> CommentRecord {
    CommentRecord { id, path: path.to_string() }
}

fn ids(v: &[CommentRecord]) -> Vec<i32> {
    v.iter().map(|r| r.id).collect()
}

fn scenario() -> Vec<CommentRecord> {
    vec![rec(1, "0.1"), rec(2, "0.1.2"), rec(3, "0.1.3"), rec(4, "0.1.2.4")]
}

#[test]
fn partition_scenario_root_level() {
    let (children, descendants) = partition(&scenario(), "1", 1);
    assert_eq!(ids(&children), vec![2, 3]);
    assert_eq!(ids(&descendants), vec![4]);
}

#[test]
fn partition_scenario_recurse_into_child() {
    let (_, descendants) = partition(&scenario(), "1", 1);
    let (children, rest) = partition(&descendants, "2", 2);
    assert_eq!(ids(&children), vec![4]);
    assert!(rest.is_empty());
}

#[test]
fn partition_other_branch_and_malformed_dropped() {
    let comments = vec![rec(5, "0.9.5"), rec(6, "0"), rec(7, ""), rec(8, "0.1.8")];
    let (children, descendants) = partition(&comments, "1", 1);
    assert_eq!(ids(&children), vec![8]);
    assert!(descendants.is_empty());
}

#[test]
fn path_segments_split_at_dots() {
    assert_eq!(path_segments("0.1.23"), vec!["0", "1", "23"]);
    assert_eq!(path_segments(""), vec![""]);
    assert_eq!(path_segments("0..7"), vec!["0", "", "7"]);
}

fn shape(n: &CommentNode) -> String {
    let kids: Vec<String> = n.children.iter().map(shape).collect();
    if kids.is_empty() {
        format!("{}", n.record.id)
    } else {
        format!("{}({})", n.record.id, kids.join(","))
    }
}

#[test]
fn thread_of_scenario() {
    let forest = comment_nodes(&scenario());
    let shapes: Vec<String> = forest.iter().map(shape).collect();
    assert_eq!(shapes, vec!["1(2(4),3)"]);
}

#[test]
fn thread_with_two_roots_and_multi_digit_ids() {
    let comments = vec![
        rec(10, "0.10"),
        rec(-3, "0.-3"),
        rec(11, "0.10.11"),
        rec(12, "0.-3.12"),
        rec(13, "0.10.11.13"),
        rec(14, "0.10.14"),
    ];
    let forest = comment_nodes(&comments);
    let shapes: Vec<String> = forest.iter().map(shape).collect();
    assert_eq!(shapes, vec!["10(11(13),14)", "-3(12)"]);
}

#[test]
fn thread_of_nothing_is_empty() {
    assert!(comment_nodes(&vec![]).is_empty());
}

#[test]
fn thread_nesting_paths() {
    fn check(n: &CommentNode) {
        for c in &n.children {
            assert_eq!(c.record.path, format!("{}.{}", n.record.path, c.record.id));
            check(c);
        }
    }
    let comments = vec![rec(1, "0.1"), rec(2, "0.1.2"), rec(3, "0.1.2.3"), rec(4, "0.4"), rec(5, "0.4.5")];
    for t in comment_nodes(&comments) {
        check(&t);
    }
}

#[test]
fn thread_holds_each_comment_once() {
    fn collect(n: &CommentNode, out: &mut Vec<i32>) {
        out.push(n.record.id);
        for c in &n.children {
            collect(c, out);
        }
    }
    let comments = vec![
        rec(4, "0.1.2.4"),
        rec(1, "0.1"),
        rec(3, "0.1.3"),
        rec(2, "0.1.2"),
        rec(9, "0.9"),
        rec(5, "0.1.2.4.5"),
        rec(6, "0.9.6"),
    ];
    let mut seen = Vec::new();
    for t in comment_nodes(&comments) {
        collect(&t, &mut seen);
    }
    seen.sort();
    assert_eq!(seen, vec![1, 2, 3, 4, 5, 6, 9]);
}

#[test]
fn orphan_without_parent_is_left_out() {
    let forest = comment_nodes(&vec![rec(2, "0.1.2")]);
    assert!(forest.is_empty());
}
