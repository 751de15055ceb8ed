use worksteal::trie::{DATrie, TATrie};

#[test]
fn new_test_1() {
    let _da_trie = DATrie::new();
}

#[test]
fn da_trie_new_test_1() {
    let mut da_trie = TATrie::new();
    let node0 = [('a', 1), ('b', 0)];
    let node1 = [('a', 2), ('b', 1)];
    let node2 = [('a', 1), ('b', 0)];
    let node3 = [('a', 1), ('b', 0)];

    da_trie.add(0, &node0);
    da_trie.add(1, &node1);
    da_trie.add(2, &node2);
    da_trie.add(3, &node3);

    assert_eq!(da_trie.base_len(), 4);
    assert!(da_trie.is_describable());
    println!("{}", da_trie.describe());
}

fn sample() -> TATrie {
    let mut trie = TATrie::new();
    trie.add(0, &[('a', 1), ('b', 0)]);
    trie.add(1, &[('a', 2), ('b', 1)]);
    trie
}

#[test]
fn walk_follows_the_edges() {
    assert_eq!(sample().walk(0, 'a'), Some(1));
    assert_eq!(sample().walk(0, 'b'), Some(0));
    assert_eq!(sample().walk(1, 'a'), Some(2));
    assert_eq!(sample().walk(1, 'b'), Some(1));
    // a place of the block that holds no edge
    assert_eq!(sample().walk(0, 'A'), None);
    // a place that belongs to the block of another node
    assert_eq!(sample().walk(0, '\u{c4}'), None);
}

#[test]
fn add_makes_room_for_the_node() {
    let mut trie = TATrie::new();
    trie.add(5, &[('\u{1}', 9)]);
    assert_eq!(trie.base_len(), 6);
    assert_eq!(trie.walk(5, '\u{1}'), Some(9));
}

#[test]
fn describe_lists_the_arrays_and_the_edges() {
    let trie = sample();
    assert!(trie.is_describable());
    assert_eq!(
        trie.describe(),
        "base len: 2, base [0, 99]\nnext len: 198, next:, [0 -(97)-> 1], [0 -(98)-> 0], \
         [1 -(97)-> 2], [1 -(98)-> 1]"
    );
    assert_eq!(TATrie::new().describe(), "base len: 0, base []\nnext len: 0, next:");
}

#[test]
fn describe_shows_edges_left_behind() {
    // a node that is added twice leaves its first edges behind, with labels
    // that count back from its new block
    let mut trie = TATrie::new();
    trie.add(0, &[('\u{1}', 5)]);
    trie.add(0, &[('\u{2}', 6)]);
    assert!(trie.is_describable());
    assert_eq!(
        trie.describe(),
        "base len: 1, base [2]\nnext len: 5, next:, [0 -(-1)-> 5], [0 -(2)-> 6]"
    );
}
