use monoio::slab::{getPageIndex, Slab, NUM_PAGES};

#[test]
fn new_slab_is_empty() {
    let slab: Slab<u32> = Slab::new();
    assert_eq!(slab.len(), 0);
    assert!(slab.get(0).is_none());
    assert!(slab.get(12345).is_none());
}

#[test]
fn insert_then_get() {
    let mut slab = Slab::new();
    let a = slab.insert("a");
    let b = slab.insert("b");
    let c = slab.insert("c");
    assert_eq!((a, b, c), (0, 1, 2));
    assert_eq!(slab.get(a), Some(&"a"));
    assert_eq!(slab.get(b), Some(&"b"));
    assert_eq!(slab.get(c), Some(&"c"));
    assert_eq!(slab.len(), 3);
}

#[test]
fn remove_gives_back_the_value() {
    let mut slab = Slab::new();
    let a = slab.insert(10u64);
    let b = slab.insert(20u64);
    assert_eq!(slab.remove(a), Some(10));
    assert_eq!(slab.get(a), None);
    assert_eq!(slab.get(b), Some(&20));
    assert_eq!(slab.len(), 1);
    assert_eq!(slab.remove(a), None);
}

#[test]
fn freed_key_is_reused_first() {
    let mut slab = Slab::new();
    for i in 0..10u32 {
        assert_eq!(slab.insert(i), i as usize);
    }
    assert_eq!(slab.remove(3), Some(3));
    assert_eq!(slab.remove(7), Some(7));
    assert_eq!(slab.insert(70), 7);
    assert_eq!(slab.insert(30), 3);
    assert_eq!(slab.insert(100), 10);
    assert_eq!(slab.get(7), Some(&70));
    assert_eq!(slab.get(3), Some(&30));
}

#[test]
fn remove_of_unknown_keys() {
    let mut slab: Slab<u8> = Slab::new();
    assert_eq!(slab.remove(0), None);
    assert_eq!(slab.remove(5000), None);
    slab.insert(1);
    assert_eq!(slab.remove(5000), None);
    assert_eq!(slab.remove(1), None);
    assert_eq!(slab.len(), 1);
}

#[test]
fn second_page_starts_after_first() {
    let mut slab = Slab::new();
    for i in 0..64usize {
        assert_eq!(slab.insert(i), i);
    }
    assert_eq!(slab.insert(64), 64);
    assert_eq!(slab.get(64), Some(&64));
    assert_eq!(slab.len(), 65);
}

#[test]
fn get_mut_changes_the_value() {
    let mut slab = Slab::new();
    let k = slab.insert(String::from("x"));
    if let Some(v) = slab.get_mut(k) {
        v.push('y');
    }
    assert_eq!(slab.get(k).map(|s| s.as_str()), Some("xy"));
    assert!(slab.get_mut(k + 1).is_none());
}

#[test]
fn page_index_of_keys() {
    assert_eq!(getPageIndex(0), 0);
    assert_eq!(getPageIndex(63), 0);
    assert_eq!(getPageIndex(64), 1);
    assert_eq!(getPageIndex(191), 1);
    assert_eq!(getPageIndex(192), 2);
    assert_eq!(getPageIndex(447), 2);
    assert_eq!(getPageIndex(448), 3);
    assert_eq!(getPageIndex(0x7FFF_FFBF), 24);
    assert_eq!(getPageIndex(0x7FFF_FFC0), 25);
    assert_eq!(getPageIndex(usize::MAX), NUM_PAGES - 1);
}

#[test]
fn compaction_resets_the_write_page_and_drops_the_empty_last_page() {
    let mut slab = Slab::new();
    for i in 0..65usize {
        slab.insert(i);
    }
    // key 64 is the only value of the second page
    assert_eq!(slab.remove(64), Some(64));
    assert_eq!(slab.remove(3), Some(3));
    // removals of vacant keys in an allocated page are counted too
    for _ in 0..2045 {
        assert_eq!(slab.remove(100), None);
    }
    // 2047 removals so far: insertion still starts from the second page
    let k = slab.insert(1000);
    assert_eq!(k, 64);
    assert_eq!(slab.remove(k), Some(1000));
    // the 2048th removal gives the empty second page back and starts over
    // from the first page, whose free slot is key 3
    assert_eq!(slab.insert(2000), 3);
    assert_eq!(slab.len(), 64);
}

#[test]
fn freed_keys_come_back_most_recent_first() {
    let mut s: Slab<i32> = Slab::new();
    assert_eq!(s.insert(1), 0);
    assert_eq!(s.insert(2), 1);
    assert_eq!(s.insert(3), 2);
    assert_eq!(s.remove(1), Some(2));
    assert_eq!(s.remove(0), Some(1));
    assert_eq!(s.remove(0), None);
    assert_eq!(s.insert(4), 0);
    assert_eq!(s.insert(5), 1);
    assert_eq!(s.insert(6), 3);
    assert_eq!(s.len(), 4);
}

#[test]
fn remove_of_missing_key_keeps_the_next_key() {
    let mut s: Slab<u8> = Slab::new();
    assert_eq!(s.insert(1), 0);
    assert_eq!(s.insert(2), 1);
    assert_eq!(s.remove(7), None);
    assert_eq!(s.remove(70), None);
    assert_eq!(s.insert(3), 2);
    assert_eq!(s.len(), 3);
}

#[test]
fn has_free_slot_on_new_and_filled_slabs() {
    let mut s: Slab<u32> = Slab::new();
    assert!(s.has_free_slot());
    for i in 0..200u32 {
        s.insert(i);
    }
    assert!(s.has_free_slot());
    assert_eq!(s.len(), 200);
}
