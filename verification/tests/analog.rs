//! The analog sampling state machine: velocity, moving averages, edge
//! detection and the pressed-key queries.

use keyglow::effects::KeyFilter;
use keyglow::keyboard::key_delta::{velocity, DeltaWatcher};

fn one_key_watcher(press_distance: u8, window: u64) -> DeltaWatcher {
    let table = vec![(77u16, (2u8, 3u8))];
    DeltaWatcher::new(1_000_000, window, press_distance, &table)
}

#[test]
fn velocity_zero_elapsed_is_zero() {
    // A scan with no elapsed time defines the velocity as zero instead of
    // an undefined quotient.
    assert_eq!(velocity(0, 255, 0), 0);
    assert_eq!(velocity(200, 10, 0), 0);
    assert_eq!(velocity(0, 0, 0), 0);
}

#[test]
fn velocity_sign_and_magnitude() {
    // Pressing from 0 to 200 over 10 ms: -(round((0 - 200) / 0.1)) = 2000.
    assert_eq!(velocity(0, 200, 10_000), 2_000);
    // Releasing mirrors the sign.
    assert_eq!(velocity(200, 0, 10_000), -2_000);
    // No movement, no velocity.
    assert_eq!(velocity(128, 128, 10_000), 0);
    // Rounding is to nearest: 100 depth over 3 ms is 10000/3 = 3333.3...
    assert_eq!(velocity(0, 100, 30_000), 333);
}

#[test]
fn scan_updates_distances_and_average() {
    let mut w = one_key_watcher(128, 10);
    w.scan(&vec![(77u16, 200u8)], 10_000);
    let k = w.keys[0];
    assert_eq!(k.distance, 200);
    assert_eq!(k.last_distance, 0);
    assert_eq!(k.delta, 2_000);
    // The average divides by the configured window (10), not the ring's
    // occupancy (1): it under-reports until the ring fills.
    assert_eq!(k.delta_average, 200);
}

#[test]
fn scan_without_sample_decays_average() {
    let mut w = one_key_watcher(128, 2);
    w.scan(&vec![(77u16, 200u8)], 10_000);
    assert_eq!(w.keys[0].delta_average, 1_000);
    // A batch that carries nothing for this key leaves the depth alone but
    // pushes a zero sample, decaying the average toward rest.
    w.scan(&vec![(99u16, 50u8)], 10_000);
    assert_eq!(w.keys[0].distance, 200);
    assert_eq!(w.keys[0].delta, 2_000);
    assert_eq!(w.keys[0].delta_average, 1_000);
    w.scan(&vec![], 10_000);
    assert_eq!(w.keys[0].delta_average, 0);
}

#[test]
fn window_change_discards_history() {
    let mut w = one_key_watcher(128, 4);
    w.scan(&vec![(77u16, 100u8)], 10_000);
    w.scan(&vec![(77u16, 200u8)], 10_000);
    assert_eq!(w.keys[0].delta_average, (1_000 + 1_000) / 4);
    // Shrinking the window reallocates the ring empty: only the new scan's
    // sample counts afterwards.
    w.deltas_in_average = 2;
    w.scan(&vec![(77u16, 220u8)], 10_000);
    assert_eq!(w.keys[0].delta_average, 200 / 2);
}

#[test]
fn just_pressed_sequence_with_consume() {
    // Depth sequence over 3 scans is [0, 200, 250], threshold 128, scans
    // 10 ms apart: the edge flag turns on at the second scan only, stays
    // on through the third, and one consume clears it even though the
    // depth stays at or above the threshold.
    let mut w = one_key_watcher(128, 10);
    w.scan(&vec![(77u16, 0u8)], 10_000);
    assert!(!w.keys[0].just_pressed());
    w.scan(&vec![(77u16, 200u8)], 10_000);
    assert!(w.keys[0].just_pressed());
    w.scan(&vec![(77u16, 250u8)], 10_000);
    assert!(w.keys[0].just_pressed());
    w.just_pressed_consume();
    assert!(!w.keys[0].just_pressed());
    assert!(w.keys[0].distance >= 128);
    // No new crossing: the flag stays clear while the key is held down.
    w.scan(&vec![(77u16, 255u8)], 10_000);
    assert!(!w.keys[0].just_pressed());
}

#[test]
fn just_pressed_needs_upward_crossing() {
    let mut w = one_key_watcher(128, 10);
    // Climbing below the threshold never sets the flag.
    w.scan(&vec![(77u16, 50u8)], 10_000);
    w.scan(&vec![(77u16, 127u8)], 10_000);
    assert!(!w.keys[0].just_pressed());
    // Crossing does.
    w.scan(&vec![(77u16, 128u8)], 10_000);
    assert!(w.keys[0].just_pressed());
}

#[test]
fn dummy_watcher_is_idle_and_zero() {
    let w = DeltaWatcher::dummy();
    assert!(w.idle);
    assert!(!w.exit);
    assert_eq!(w.keys.len(), 126);
    for k in &w.keys {
        assert_eq!(k.distance, 0);
        assert!(!k.just_pressed());
    }
    assert!(w.get_pressed_keys().is_empty());
}

#[test]
fn pressed_keys_with_matrix_positions() {
    let mut w = one_key_watcher(128, 10);
    assert!(w.get_pressed_keys().is_empty());
    w.scan(&vec![(77u16, 40u8)], 10_000);
    let pressed = w.get_pressed_keys();
    assert_eq!(pressed.len(), 1);
    assert_eq!(pressed[0].key, (2, 3));
    let with_mat = w.get_pressed_keys_mat_keys();
    assert_eq!(with_mat.len(), 1);
    assert_eq!(with_mat[0].0.key, (2, 3));
    assert_eq!(with_mat[0].1.key, (2, 3));
}

#[test]
fn key_filters() {
    let all = KeyFilter::All;
    assert!(all.allows((0, 0)));
    assert!(all.allows((5, 20)));
    let included = KeyFilter::Included(vec![(1, 2), (3, 4)]);
    assert!(included.allows((3, 4)));
    assert!(!included.allows((3, 5)));
    let excluded = KeyFilter::Excluded(vec![(1, 2)]);
    assert!(!excluded.allows((1, 2)));
    assert!(excluded.allows((0, 0)));
}
