use memfs::tree::{TreeNode, TreeNodeRefCell};

#[test]
fn tree_sums_sequential_inserts() {
    let mut tree = TreeNode::new(0);
    for i in 1..=100i64 {
        tree.insert(i);
    }
    assert_eq!(tree.sum(), 5050);
}

#[test]
fn tree_sums_mixed_values() {
    let mut tree = TreeNode::new(10);
    tree.insert(-4);
    tree.insert(7);
    tree.insert(-4);
    tree.insert(0);
    assert_eq!(tree.sum(), 9);
}

#[test]
fn tree_single_node_sum_is_its_value() {
    let tree = TreeNode::new(-42);
    assert_eq!(tree.sum(), -42);
}

#[test]
fn shared_tree_sums_sequential_inserts() {
    let mut tree = TreeNodeRefCell::new(0);
    for i in 1..=100i64 {
        tree = TreeNodeRefCell::insert(&tree, i);
    }
    assert_eq!(TreeNodeRefCell::sum(&tree), 5050);
}

#[test]
fn shared_tree_insert_leaves_the_old_root_alone() {
    let old_root = TreeNodeRefCell::new(10);
    let new_root = TreeNodeRefCell::insert(&old_root, 5);
    let newer_root = TreeNodeRefCell::insert(&new_root, 20);
    assert_eq!(TreeNodeRefCell::sum(&old_root), 10);
    assert_eq!(TreeNodeRefCell::sum(&new_root), 15);
    assert_eq!(TreeNodeRefCell::sum(&newer_root), 35);
}
