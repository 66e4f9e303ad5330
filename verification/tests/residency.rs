use umd::residency::ResidencyTable;

#[test]
fn five_distinct_textures_evict_round_robin() {
    let mut table = ResidencyTable::new();
    for id in 1..=5u32 {
        let (slot, fresh) = table.acquire(id);
        assert!(fresh);
        assert_eq!(slot as u32, (id - 1) % 4);
    }
    // slot 0 was replaced by id 5; the rest keep their first assignment
    assert_eq!(table.slot_id(0), 5);
    assert_eq!(table.slot_id(1), 2);
    assert_eq!(table.slot_id(2), 3);
    assert_eq!(table.slot_id(3), 4);
}

#[test]
fn at_most_four_textures_stay_resident() {
    let mut table = ResidencyTable::new();
    let draws = [1u32, 2, 1, 3, 2, 4, 1, 4, 3, 2];
    for &id in &draws {
        table.acquire(id);
    }
    for id in 1..=4u32 {
        let (slot, fresh) = table.acquire(id);
        assert!(!fresh, "texture {id} was evicted");
        assert_eq!(slot as u32, id - 1);
    }
}

#[test]
fn repeated_draw_keeps_the_slot() {
    let mut table = ResidencyTable::new();
    let (s1, f1) = table.acquire(9);
    let (s2, f2) = table.acquire(9);
    assert!(f1);
    assert!(!f2);
    assert_eq!(s1, s2);
    assert_eq!(table.slot_id(s1 as usize), 9);
}
