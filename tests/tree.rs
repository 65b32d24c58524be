use crafty::{Arena, Backtracker};

#[test]
fn starts_with_initial_node() {
    let arena = Arena::new("a");

    assert_eq!(arena.nodes.len(), 1);
    assert_eq!(arena.get(0).state, "a");
}

#[test]
fn inserts_into_arena_and_parent() {
    let mut arena = Arena::new("a");

    assert_eq!(arena.get(0).children.len(), 0);

    let index_b = arena.insert(0, "b");

    assert_eq!(arena.nodes.len(), 2);
    assert_eq!(arena.get(index_b).state, "b");
    assert_eq!(arena.get(0).children.len(), 1);
}

#[test]
fn insert_links_child_to_parent() {
    let mut arena = Arena::new(0u32);
    let b = arena.insert(0, 1);
    let c = arena.insert(b, 2);
    assert_eq!(arena.get(c).parent, Some(b));
    assert_eq!(arena.get(b).children, vec![c]);
    arena.get_mut(c).state = 7;
    assert_eq!(arena.get(c).state, 7);
}

#[test]
fn backtrack_reads_path_from_root() {
    let mut tracker = Backtracker::new();
    let root = tracker.push(None, 'a');
    let b = tracker.push(Some(root), 'b');
    let _other = tracker.push(Some(root), 'x');
    let c = tracker.push(Some(b), 'c');
    assert_eq!(tracker.backtrack(c), vec!['a', 'b', 'c']);
    assert_eq!(tracker.backtrack(root), vec!['a']);
    assert_eq!(tracker.backtrack(99), Vec::<char>::new());
}
