use deque::share::{item_string, node_string};
use deque::Dequeue;

#[test]
fn push_one_head_and_pop() {
    let mut d: Dequeue = Dequeue::new();
    d.insert_head(13);
    assert_eq!(d.pop_head(), Some(13));
    assert_eq!(d.pop_head(), None);
}

#[test]
fn push_two_heads_and_pop() {
    let mut d = Dequeue::new();
    d.insert_head(13);
    d.insert_head(14);
    assert_eq!(d.pop_head(), Some(14));
    assert_eq!(d.pop_head(), Some(13));
    assert_eq!(d.pop_head(), None);
}

#[test]
fn interleaved_inserts_and_pops() {
    let mut d = Dequeue::new();
    d.insert_head(1);
    d.insert_head(2);
    assert_eq!(d.pop_head(), Some(2));
    d.insert_head(3);
    assert_eq!(d.pop_head(), Some(3));
    assert_eq!(d.pop_head(), Some(1));
    assert_eq!(d.pop_head(), None);
}

#[test]
fn pop_on_empty_returns_none_and_changes_nothing() {
    let mut d = Dequeue::new();
    assert_eq!(d.pop_head(), None);
    assert_eq!(d.pop_head(), None);
    assert_eq!(d.debug_string(), "Dequeue(None)");
    d.insert_head(7);
    assert_eq!(d.pop_head(), Some(7));
    assert_eq!(d.pop_head(), None);
    assert_eq!(d.pop_head(), None);
    assert_eq!(d.debug_string(), "Dequeue(None)");
}

#[test]
fn round_trip_returns_items_in_reverse() {
    let items: Vec<u32> = (0..200).map(|i| i * 7 + 1).collect();
    let mut d = Dequeue::new();
    for item in items.iter() {
        d.insert_head(*item);
    }
    let mut popped = Vec::new();
    for _ in 0..items.len() {
        popped.push(d.pop_head());
    }
    let mut expected: Vec<Option<u32>> = items.iter().map(|item| Some(*item)).collect();
    expected.reverse();
    assert_eq!(popped, expected);
    assert_eq!(d.pop_head(), None);
}

#[test]
fn as_many_pops_succeed_as_items_are_left() {
    let mut d = Dequeue::new();
    for item in 0..5u32 {
        d.insert_head(item);
    }
    assert_eq!(d.pop_head(), Some(4));
    assert_eq!(d.pop_head(), Some(3));
    d.insert_head(9);
    let mut successes = 0;
    while d.pop_head().is_some() {
        successes += 1;
    }
    assert_eq!(successes, 6 - 2);
    assert_eq!(d.pop_head(), None);
}

#[test]
fn later_inserts_come_back_before_earlier_ones() {
    let mut d = Dequeue::new();
    d.insert_head(10);
    d.insert_head(20);
    d.insert_head(30);
    assert_eq!(d.pop_head(), Some(30));
    d.insert_head(40);
    d.insert_head(50);
    assert_eq!(d.pop_head(), Some(50));
    assert_eq!(d.pop_head(), Some(40));
    assert_eq!(d.pop_head(), Some(20));
    d.insert_head(60);
    assert_eq!(d.pop_head(), Some(60));
    assert_eq!(d.pop_head(), Some(10));
    assert_eq!(d.pop_head(), None);
}

#[test]
fn equal_items_are_kept_apart() {
    let mut d = Dequeue::new();
    d.insert_head(5);
    d.insert_head(5);
    d.insert_head(u32::MAX);
    d.insert_head(0);
    assert_eq!(d.pop_head(), Some(0));
    assert_eq!(d.pop_head(), Some(u32::MAX));
    assert_eq!(d.pop_head(), Some(5));
    assert_eq!(d.pop_head(), Some(5));
    assert_eq!(d.pop_head(), None);
}

#[test]
fn queue_is_usable_again_after_it_ran_empty() {
    let mut d = Dequeue::new();
    for round in 0..10u32 {
        d.insert_head(round);
        d.insert_head(round + 100);
        assert_eq!(d.pop_head(), Some(round + 100));
        assert_eq!(d.pop_head(), Some(round));
        assert_eq!(d.pop_head(), None);
    }
}

#[test]
fn dropping_a_queue_that_holds_items_releases_them() {
    let mut d = Dequeue::new();
    for item in 0..50u32 {
        d.insert_head(item);
    }
    assert_eq!(d.pop_head(), Some(49));
    drop(d);

    let mut one = Dequeue::new();
    one.insert_head(1);
    drop(one);

    drop(Dequeue::new());
}

#[test]
fn clear_leaves_an_empty_queue() {
    let mut d = Dequeue::new();
    d.clear();
    assert_eq!(d.pop_head(), None);
    for item in 0..20u32 {
        d.insert_head(item);
    }
    d.clear();
    assert_eq!(d.pop_head(), None);
    assert_eq!(d.debug_string(), "Dequeue(None)");
    d.insert_head(3);
    assert_eq!(d.pop_head(), Some(3));
}

#[test]
fn debug_string_of_one_item_shows_the_node_twice() {
    let mut d = Dequeue::new();
    d.insert_head(13);
    let text = d.debug_string();
    let node = "Node { item: 13, prev: None, next: None }";
    assert_eq!(
        text,
        format!("Dequeue(Some(Chain {{ head: {}, tail: {} }}))", node, node)
    );
    assert_eq!(d.pop_head(), Some(13));
}

#[test]
fn debug_string_of_two_items_shows_both_ends_and_their_links() {
    let mut d = Dequeue::new();
    d.insert_head(13);
    d.insert_head(14);
    let text = d.debug_string();
    assert!(text.starts_with("Dequeue(Some(Chain { head: Node { item: 14, prev: Some(0x"));
    assert!(text.contains("), next: None }, tail: Node { item: 13, prev: None, next: Some(0x"));
    assert!(text.ends_with(") } }))"));
    assert_eq!(d.debug_string(), text);
    assert_eq!(d.pop_head(), Some(14));
    assert_eq!(d.pop_head(), Some(13));
}

#[test]
fn item_string_writes_decimal_digits() {
    assert_eq!(item_string(0), "0");
    assert_eq!(item_string(7), "7");
    assert_eq!(item_string(10), "10");
    assert_eq!(item_string(13), "13");
    assert_eq!(item_string(1000), "1000");
    assert_eq!(item_string(90210), "90210");
    assert_eq!(item_string(u32::MAX), "4294967295");
    for item in [1u32, 9, 11, 99, 100, 101, 65535, 65536, 123456789] {
        assert_eq!(item_string(item), format!("{:?}", item));
    }
}

#[test]
fn node_string_frames_the_item_and_the_links() {
    assert_eq!(
        node_string(13, "None", "Some(0x10)"),
        "Node { item: 13, prev: None, next: Some(0x10) }"
    );
    assert_eq!(node_string(0, "", ""), "Node { item: 0, prev: , next:  }");
}

#[test]
fn debug_string_writes_large_items_in_full() {
    let mut d = Dequeue::new();
    d.insert_head(u32::MAX);
    d.insert_head(0);
    let text = d.debug_string();
    assert!(text.starts_with("Dequeue(Some(Chain { head: Node { item: 0, prev: Some(0x"));
    assert!(text.contains("tail: Node { item: 4294967295, prev: None, next: Some(0x"));
}
