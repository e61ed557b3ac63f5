use ttl_cache::entry::Entry;

#[test]
fn new_entry_has_deadline_and_no_hits() {
    let entry = Entry::new("v", 100, 60);
    assert_eq!(entry.value, "v");
    assert_eq!(entry.expires_at, 160);
    assert_eq!(entry.hit_count, 0);
}

#[test]
fn deadline_stops_at_the_last_tick() {
    let entry = Entry::new(1u8, u64::MAX - 5, 10);
    assert_eq!(entry.expires_at, u64::MAX);
    assert!(!entry.is_expired(u64::MAX));
}

#[test]
fn entry_is_fresh_before_the_deadline() {
    let entry = Entry::new(1u8, 100, 60);
    assert!(!entry.is_expired(0));
    assert!(!entry.is_expired(100));
    assert!(!entry.is_expired(159));
}

#[test]
fn entry_is_fresh_exactly_at_the_deadline() {
    let entry = Entry::new(1u8, 100, 60);
    assert!(!entry.is_expired(160));
}

#[test]
fn entry_is_stale_after_the_deadline() {
    let entry = Entry::new(1u8, 100, 60);
    assert!(entry.is_expired(161));
    assert!(entry.is_expired(u64::MAX));
}

#[test]
fn zero_ttl_entry_lives_for_its_own_tick() {
    let entry = Entry::new(1u8, 7, 0);
    assert!(!entry.is_expired(7));
    assert!(entry.is_expired(8));
}

#[test]
fn touch_counts_one_read() {
    let mut entry = Entry::new(5u32, 10, 20);
    entry.touch();
    assert_eq!(entry.hit_count, 1);
    entry.touch();
    entry.touch();
    assert_eq!(entry.hit_count, 3);
    assert_eq!(entry.value, 5);
    assert_eq!(entry.expires_at, 30);
}

#[test]
fn touch_stops_at_the_largest_count() {
    let mut entry = Entry { value: 0u8, expires_at: 1, hit_count: u64::MAX - 1 };
    entry.touch();
    assert_eq!(entry.hit_count, u64::MAX);
    entry.touch();
    assert_eq!(entry.hit_count, u64::MAX);
}
