use twitchbot::time::{Cooldown, Timer};

const MS: i128 = 1_000_000;

#[test]
fn timer_since_saturates() {
    let t = Timer::new_time(5_000);
    assert_eq!(t.since(7_500), 2_500);
    assert_eq!(t.since(5_000), 0);
    assert_eq!(t.since(1_000), 0);
    let mut t = t;
    t.update_time(10);
    assert_eq!(t.since(15), 5);
}

#[test]
fn new_cooldown_is_over() {
    let c = Cooldown::new();
    assert!(c.is_done_at(6900, 6900 * MS));
    assert!(!c.is_done_at(6900, 6900 * MS - 1));
    assert!(c.is_done(6900));
    assert!(Cooldown::default().is_done_at(0, 0));
}

#[test]
fn passes_are_spaced() {
    let mut c = Cooldown::new();
    let start = 1_000_000 * MS;
    assert!(c.cooldown_passed_at(6900, start));
    assert!(!c.cooldown_passed_at(6900, start));
    assert!(!c.cooldown_passed_at(6900, start + 6899 * MS));
    assert!(!c.cooldown_passed_at(6900, start + 6900 * MS - 1));
    assert!(c.cooldown_passed_at(6900, start + 6900 * MS));
    // A clock that goes back counts as no time passed.
    assert!(!c.cooldown_passed_at(6900, start));
}

#[test]
fn zero_cooldown_always_passes() {
    let mut c = Cooldown::new();
    assert!(c.cooldown_passed_at(0, 5));
    assert!(c.cooldown_passed_at(0, 5));
    assert!(c.cooldown_passed_at(0, 1));
}

#[test]
fn clock_based_cooldown() {
    let mut c = Cooldown::new();
    // The clock is far past the epoch, so a new cooldown passes once...
    assert!(c.cooldown_passed(60_000));
    // ...and not again within the minute.
    assert!(!c.cooldown_passed(60_000));
    assert!(!c.is_done(60_000));
    let mut d = Cooldown::new();
    d.update_time();
    assert!(!d.is_done(60_000));
    let t = Timer::new();
    assert!(t.since_now() < (60_000 * MS) as u128);
    let mut t2 = Timer::new_time(0);
    t2.update_time_now();
    assert!(t2.since_now() < (60_000 * MS) as u128);
}

#[test]
fn instants_before_the_epoch() {
    let t = Timer::new_time(-5_000);
    assert_eq!(t.since(5_000), 10_000);
    assert_eq!(t.since(-7_000), 0);
    assert_eq!(Timer::new_time(i128::MIN).since(i128::MAX), u128::MAX);
    let mut c = Cooldown::new();
    c.update_time_at(-10_000 * MS);
    assert!(!c.is_done_at(9_000, -2_000 * MS));
    assert!(c.is_done_at(8_000, -2_000 * MS));
    assert!(c.cooldown_passed_at(8_000, -2_000 * MS));
    assert!(!c.cooldown_passed_at(1, -2_000 * MS));
    // A cooldown last reset at the epoch does not pass on a clock before it.
    let mut d = Cooldown::new();
    assert!(!d.cooldown_passed_at(1, -5 * MS));
}
