use eplayer::detect::{is_auto_generated, PREFIX_LEN};
use eplayer::subtitle::AtomicSubtitleUnit;

fn unit(start_ms: u64, end_ms: u64) -> AtomicSubtitleUnit {
    AtomicSubtitleUnit { id: 1, text: "x".to_string(), start_ms, end_ms }
}

fn distinct(count: u64) -> Vec<AtomicSubtitleUnit> {
    (0..count).map(|i| unit(i * 1000, i * 1000 + 500)).collect()
}

#[test]
fn prefix_has_ten_units() {
    assert_eq!(PREFIX_LEN, 10);
}

#[test]
fn distinct_times_are_authored() {
    assert!(!is_auto_generated(&distinct(10)));
    assert!(!is_auto_generated(&distinct(25)));
}

#[test]
fn fewer_than_ten_units_are_authored() {
    let mut units = distinct(9);
    units[1] = unit(0, 500);
    assert!(!is_auto_generated(&units));
    assert!(!is_auto_generated(&Vec::new()));
}

#[test]
fn shared_start_fires() {
    let mut units = distinct(10);
    units[4] = unit(3000, 4400);
    assert!(is_auto_generated(&units));
}

#[test]
fn shared_end_fires() {
    let mut units = distinct(10);
    units[9] = unit(8900, 8500);
    assert!(is_auto_generated(&units));
}

#[test]
fn first_and_last_pair_of_the_prefix_count() {
    let mut units = distinct(10);
    units[1] = unit(0, 1500);
    assert!(is_auto_generated(&units));
    let mut units = distinct(10);
    units[9] = unit(8000, 9500);
    assert!(is_auto_generated(&units));
}

#[test]
fn collision_after_the_prefix_is_not_seen() {
    let mut units = distinct(12);
    units[10] = unit(9000, 9500);
    assert!(!is_auto_generated(&units));
    units[11] = unit(9000, 9500);
    assert!(!is_auto_generated(&units));
}

#[test]
fn only_neighbours_are_compared() {
    let mut units = distinct(10);
    units[5] = unit(0, 5500);
    assert!(!is_auto_generated(&units));
}
