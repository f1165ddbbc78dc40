use multisig::state::bitmap;
use multisig::state::bitmap::{count, get, len_for};

#[test]
fn length_rounds_up() {
    assert_eq!(len_for(0), 0);
    assert_eq!(len_for(1), 1);
    assert_eq!(len_for(8), 1);
    assert_eq!(len_for(9), 2);
    assert_eq!(len_for(4096), 512);
}

#[test]
fn set_and_read_back() {
    let mut bits = [0u8; 2];
    assert!(!get(&bits, 0));
    assert!(bitmap::set(&mut bits, 0));
    assert!(get(&bits, 0));
    // Setting an already-set bit reports it was not clear.
    assert!(!bitmap::set(&mut bits, 0));
    assert!(bitmap::set(&mut bits, 15));
    assert!(get(&bits, 15));
    assert!(!get(&bits, 14));
    assert_eq!(count(&bits), 2);
}

#[test]
fn an_index_past_the_end_is_not_a_panic() {
    let mut bits = [0u8; 1];
    assert!(!get(&bits, 64));
    assert!(!bitmap::set(&mut bits, 64));
    assert_eq!(count(&bits), 0);
}

#[test]
fn every_bit_in_a_byte_is_distinct() {
    let mut bits = [0u8; 1];
    for i in 0..8 {
        assert!(bitmap::set(&mut bits, i), "bit {i} was already set");
    }
    assert_eq!(bits[0], 0xff);
    assert_eq!(count(&bits), 8);
}

#[test]
fn setting_a_bit_counts_one_more() {
    let mut bits = [0b0000_0101u8, 0];
    assert_eq!(count(&bits), 2);
    assert!(bitmap::set(&mut bits, 9));
    assert_eq!(count(&bits), 3);
    assert!(get(&bits, 9));
    assert!(get(&bits, 0) && get(&bits, 2));
    assert!(!get(&bits, 1) && !get(&bits, 8) && !get(&bits, 10));
}
