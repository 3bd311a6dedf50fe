use reddit_markdown::replies::count_total_replies;
use reddit_markdown::replies::get_replies;
use reddit_markdown::replies::Comment;

fn leaf(id: &str, depth: u32, body: &str) -> Comment {
    Comment {
        id: id.to_string(),
        author: "user".to_string(),
        ups: 1,
        body: body.to_string(),
        created_utc: 0,
        depth,
        children: Vec::new(),
    }
}

fn node(id: &str, depth: u32, body: &str, children: Vec<Comment>) -> Comment {
    Comment {
        id: id.to_string(),
        author: "user".to_string(),
        ups: 1,
        body: body.to_string(),
        created_utc: 0,
        depth,
        children,
    }
}

fn has_id(entries: &[reddit_markdown::replies::FlatEntry], id: &str) -> bool {
    entries.iter().any(|e| e.id == id)
}

#[test]
fn test_get_replies_empty_basic() {
    let empty_reply = leaf("root", 0, "root body");
    let replies = get_replies(&empty_reply, 5);
    assert_eq!(replies.len(), 0);
}

#[test]
fn test_get_replies_empty() {
    let empty_reply = leaf("root", 0, "root body");
    let replies = get_replies(&empty_reply, 5);
    assert_eq!(replies.len(), 0);
}

#[test]
fn test_get_replies_with_data() {
    let reply_data = node(
        "root",
        0,
        "root body",
        vec![leaf("comment1", 1, "This is a test comment")],
    );
    let replies = get_replies(&reply_data, 5);
    assert_eq!(replies.len(), 1);
    assert!(has_id(&replies, "comment1"));
}

#[test]
fn test_get_replies_nested() {
    let reply_data = node(
        "root",
        0,
        "root body",
        vec![node(
            "comment1",
            1,
            "First level comment",
            vec![leaf("comment2", 2, "Second level reply")],
        )],
    );
    let replies = get_replies(&reply_data, 5);
    assert_eq!(replies.len(), 2);
    assert!(has_id(&replies, "comment1"));
    assert!(has_id(&replies, "comment2"));
}

#[test]
fn test_get_replies_depth_limit() {
    let reply_data = node(
        "root",
        0,
        "root body",
        vec![node(
            "comment1",
            1,
            "First level comment",
            vec![leaf("comment2", 2, "Second level reply")],
        )],
    );
    let replies = get_replies(&reply_data, 1);
    assert_eq!(replies.len(), 1);
    assert!(has_id(&replies, "comment1"));
    assert!(!has_id(&replies, "comment2"));
}

#[test]
fn test_depth_pruning_keeps_no_deep_nodes() {
    // a chain with nodes at depths 1..=5 below the root
    let chain = node(
        "d1",
        1,
        "one",
        vec![node(
            "d2",
            2,
            "two",
            vec![node(
                "d3",
                3,
                "three",
                vec![node("d4", 4, "four", vec![leaf("d5", 5, "five")])],
            )],
        )],
    );
    let root = node("root", 0, "zero", vec![chain]);
    let replies = get_replies(&root, 2);
    assert_eq!(replies.len(), 2);
    assert!(replies.iter().all(|e| e.depth <= 2));
    assert!(has_id(&replies, "d1"));
    assert!(has_id(&replies, "d2"));
    assert!(!has_id(&replies, "d3"));
}

#[test]
fn test_depth_pruning_drops_children_of_pruned_node() {
    // the pruned node's child claims a shallow depth, but skip means no descent
    let pruned = node("deep", 3, "too deep", vec![leaf("shallow_child", 1, "body")]);
    let root = node("root", 0, "zero", vec![pruned]);
    let replies = get_replies(&root, 2);
    assert_eq!(replies.len(), 0);
}

#[test]
fn test_empty_body_skipped_but_children_kept() {
    let empty_parent = node("empty", 1, "", vec![leaf("kept1", 2, "child one")]);
    let blank_parent = node("blank", 1, "   ", vec![leaf("kept2", 2, "child two")]);
    let root = node("root", 0, "zero", vec![empty_parent, blank_parent]);
    let replies = get_replies(&root, 5);
    assert_eq!(replies.len(), 2);
    assert!(!has_id(&replies, "empty"));
    assert!(!has_id(&replies, "blank"));
    assert!(has_id(&replies, "kept1"));
    assert!(has_id(&replies, "kept2"));
}

#[test]
fn test_unlimited_depth_keeps_every_nonempty_node() {
    let chain = node(
        "d1",
        1,
        "one",
        vec![node(
            "d2",
            2,
            "",
            vec![node(
                "d3",
                3,
                "three",
                vec![node("d4", 4, "four", vec![leaf("d5", 5, "five")])],
            )],
        )],
    );
    let root = node("root", 0, "zero", vec![chain]);
    let replies = get_replies(&root, -1);
    assert_eq!(replies.len(), 4);
    for id in ["d1", "d3", "d4", "d5"] {
        assert!(has_id(&replies, id));
    }
    assert!(!has_id(&replies, "d2"));
}

#[test]
fn test_flatten_preserves_sibling_order() {
    let root = node(
        "root",
        0,
        "zero",
        vec![
            node("a", 1, "a body", vec![leaf("a1", 2, "a1 body")]),
            leaf("b", 1, "b body"),
        ],
    );
    let replies = get_replies(&root, -1);
    let ids: Vec<&str> = replies.iter().map(|e| e.id.as_str()).collect();
    assert_eq!(ids, vec!["a", "a1", "b"]);
}

#[test]
fn test_count_total_replies_counts_empty_top_level() {
    let top1 = node("a", 0, "", vec![leaf("a1", 1, "kept")]);
    let top2 = leaf("b", 0, "visible");
    let replies = vec![top1, top2];
    // two top-level comments plus one flattened descendant
    assert_eq!(count_total_replies(&replies, -1), 3);
}
