//! Palettes and their rotation.

use nimbus_wayland::style::{hex_string, palettes, Rng, Rotator, RECENT_MEMORY};

#[test]
fn palette_list_matches_the_macos_app() {
    let p = palettes();
    assert_eq!(p.len(), 10);
    assert_eq!(p[0].name, "Ember");
    let names: std::collections::HashSet<_> = p.iter().map(|x| x.name).collect();
    assert_eq!(names.len(), 10, "palette names must be unique");
}

#[test]
fn rotation_never_picks_the_current_palette() {
    let mut rng = Rng::new(42);
    let mut r = Rotator::new(palettes(), 0);
    for _step in 0..200 {
        let next = r.pick_next(&mut rng);
        assert_ne!(next, r.current_index());
        r.transition_to(next);
    }
}

#[test]
fn rotation_never_repeats_within_the_recent_window() {
    let mut rng = Rng::new(7);
    let mut r = Rotator::new(palettes(), 0);
    let mut seen = vec![r.current_index()];
    for _step in 0..200 {
        let next = r.pick_next(&mut rng);
        let window = &seen[seen.len().saturating_sub(RECENT_MEMORY)..];
        assert!(!window.contains(&next), "repeated within the recent window");
        r.transition_to(next);
        seen.push(next);
    }
}

/// With almost everything unavailable the recency rule cannot be satisfied.
#[test]
fn relaxes_recency_when_few_palettes_available() {
    let mut rng = Rng::new(99);
    let two: Vec<_> = palettes().into_iter().take(2).collect();
    let mut r = Rotator::new(two, 0);
    for _step in 0..20 {
        let next = r.pick_next(&mut rng);
        assert_ne!(next, r.current_index(), "must keep alternating between the two");
        r.transition_to(next);
    }
}

#[test]
fn single_palette_does_not_panic() {
    let mut rng = Rng::new(1);
    let one: Vec<_> = palettes().into_iter().take(1).collect();
    let r = Rotator::new(one, 0);
    assert_eq!(r.pick_next(&mut rng), 0);
}

#[test]
fn the_timer_never_picks_a_palette_you_switched_off() {
    let mut r = Rotator::new(palettes(), 0);
    r.set_disabled(&["Toxic".into(), "magma".into()]);

    let toxic = palettes().iter().position(|p| p.name == "Toxic").unwrap();
    let magma = palettes().iter().position(|p| p.name == "Magma").unwrap();
    assert!(r.is_disabled(toxic));
    assert!(r.is_disabled(magma), "matching is case-insensitive");

    let mut rng = Rng::new(7);
    for step in 0..200 {
        let next = r.pick_next(&mut rng);
        assert_ne!(next, toxic, "picked a disabled palette at step {step}");
        assert_ne!(next, magma, "picked a disabled palette at step {step}");
        r.transition_to(next);
    }
}

/// Recency gives way when choices run short; being switched off does not.
#[test]
fn recency_relaxes_before_a_disabled_palette_is_used() {
    let all = palettes();
    let keep: Vec<String> = all.iter().skip(2).map(|p| p.name.to_string()).collect();
    let mut r = Rotator::new(all, 0);
    r.set_disabled(&keep);

    let mut rng = Rng::new(3);
    for step in 0..50 {
        let next = r.pick_next(&mut rng);
        assert!(next <= 1, "step {step} escaped the two that are left");
        r.transition_to(next);
    }
}

#[test]
fn all_but_one_disabled_stays_put_rather_than_disobeying() {
    let all = palettes();
    let others: Vec<String> = all.iter().skip(1).map(|p| p.name.to_string()).collect();
    let mut r = Rotator::new(all, 0);
    r.set_disabled(&others);
    let mut rng = Rng::new(11);
    assert_eq!(r.pick_next(&mut rng), 0);
}

#[test]
fn a_palette_can_be_chosen_by_name() {
    let mut r = Rotator::new(palettes(), 0);
    assert!(r.select_by_name("aurora"), "names are case-insensitive");
    assert_eq!(r.current().name, "Aurora");
    assert!(!r.select_by_name("Chartreuse"), "an unknown name is refused");
    assert_eq!(r.current().name, "Aurora", "and changes nothing");
}

#[test]
fn palettes_report_the_hex_they_were_authored_in() {
    let ember = palettes()[0];
    assert_eq!(ember.name, "Ember");
    assert_eq!(
        ember.hex_strings(),
        ["#ff3d00".to_string(), "#ffc400".to_string(), "#ff6d00".to_string()]
    );
}

#[test]
fn hex_is_six_lower_case_digits() {
    assert_eq!(hex_string(0), "#000000");
    assert_eq!(hex_string(0xABCDEF), "#abcdef");
    assert_eq!(hex_string(0x0000FF), "#0000ff");
}

#[test]
fn a_seed_is_never_left_at_zero() {
    let mut a = Rng::new(0);
    let mut b = Rng::new(1);
    assert_eq!(a.next_usize(1000), b.next_usize(1000), "0 and 1 seed alike");
    assert_eq!(a.next_usize(0), 0);
    for bound in 1..50 {
        assert!(a.next_usize(bound) < bound);
    }
}

#[test]
fn a_transition_is_remembered_and_the_oldest_forgotten() {
    let mut r = Rotator::new(palettes(), 0);
    assert_eq!(r.recent(), &[0], "the palette it starts at counts as shown");
    assert!(r.transition_to(3));
    assert!(r.transition_to(5));
    assert!(r.transition_to(7));
    assert_eq!(r.recent(), &[3, 5, 7]);
    assert!(r.transition_to(1));
    assert_eq!(r.recent(), &[5, 7, 1]);
    assert_eq!(r.current_index(), 1);
    assert!(!r.transition_to(1), "already current");
    assert!(!r.transition_to(99), "not a palette");
    assert_eq!(r.recent(), &[5, 7, 1]);
}

#[test]
fn a_start_past_the_end_is_the_last_palette() {
    let r = Rotator::new(palettes(), 42);
    assert_eq!(r.current_index(), 9);
    let r = Rotator::new(palettes(), 9);
    assert_eq!(r.current_index(), 9);
}

#[test]
fn a_restored_rotation_keeps_only_valid_recent_palettes() {
    let mut r = Rotator::new(palettes(), 0);
    r.restore(4, &[1, 99, 2, 3, 5]);
    assert_eq!(r.current_index(), 4);
    assert_eq!(r.recent(), &[3, 5, 4], "ending with the palette now on screen");
    r.restore(5, &[2, 5]);
    assert_eq!(r.recent(), &[2, 5], "already there, so not added twice");
    r.restore(77, &[]);
    assert_eq!(r.current_index(), 5, "an index past the end is ignored");
    assert_eq!(r.recent(), &[5]);
}

/// The palette the rotation starts at is shown, so the next two picks must
/// not come back to it either.
#[test]
fn the_start_palette_counts_among_the_last_shown() {
    let mut rng = Rng::new(112);
    let mut r = Rotator::new(palettes(), 0);
    let first = r.pick_next(&mut rng);
    assert_eq!(first, 1);
    r.transition_to(first);
    let second = r.pick_next(&mut rng);
    assert_ne!(second, 0, "the start palette is one of the last three shown");
    assert_ne!(second, 1);
    assert!(Rotator::new(Vec::new(), 3).recent().is_empty(), "nothing to show, nothing recent");
}

/// An even seed acts as the odd one above it, and the same seed always gives
/// the same draws.
#[test]
fn a_seed_decides_every_draw() {
    let mut a = Rng::new(6);
    let mut b = Rng::new(7);
    let mut c = Rng::new(7);
    for bound in [10, 3, 1, 0, 1000, 7] {
        let x = a.next_usize(bound);
        assert_eq!(x, b.next_usize(bound));
        assert_eq!(x, c.next_usize(bound));
    }
}

#[test]
fn two_palettes_alternate_from_the_start() {
    let two: Vec<_> = palettes().into_iter().take(2).collect();
    let mut r = Rotator::new(two, 1);
    let mut rng = Rng::new(5);
    let mut seen = vec![r.current_index()];
    for _ in 0..10 {
        let next = r.pick_next(&mut rng);
        r.transition_to(next);
        seen.push(next);
    }
    assert_eq!(seen, vec![1, 0, 1, 0, 1, 0, 1, 0, 1, 0, 1]);
}
