use spawn_protocol::layout::{all_keys, key_by_slot, spawn_rows, BOARD_QUARTERS};
use std::collections::HashSet;

#[test]
fn every_row_is_the_same_width() {
    for (i, row) in spawn_rows().iter().enumerate() {
        let w: u32 = row.iter().map(|k| k.width_quarters as u32).sum();
        assert!(
            w == BOARD_QUARTERS,
            "row {i} is {w} quarters, expected {BOARD_QUARTERS}"
        );
    }
}

#[test]
fn board_has_sixty_eight_keys() {
    assert_eq!(all_keys().len(), 68);
}

#[test]
fn slots_are_unique_and_addressable() {
    let mut seen = HashSet::new();
    for key in all_keys() {
        assert!(seen.insert(key.slot), "duplicate slot {}", key.slot);
        assert!(
            (key.slot as usize) < spawn_protocol::KEY_SLOTS,
            "slot {} out of range",
            key.slot
        );
    }
}

#[test]
fn lookup_finds_known_slots() {
    assert_eq!(key_by_slot(83).unwrap().label, "Space");
    assert_eq!(key_by_slot(0).unwrap().label, "Esc");
    assert!(key_by_slot(200).is_none());
}
