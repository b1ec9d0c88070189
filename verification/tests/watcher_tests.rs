use twitchbot::watcher::{create_watcher, WatchOutcome, Watcher};

const MIN: i128 = 60_000 * 1_000_000;

fn reply(o: WatchOutcome) -> Option<String> {
    match o {
        WatchOutcome::Reply(s) => Some(s),
        _ => None,
    }
}

#[test]
fn replies_once_per_delay() {
    let mut w = create_watcher();
    let now = 100 * MIN;
    assert_eq!(reply(w.on_at("uuh what", now)).as_deref(), Some("wideuuh"));
    assert!(matches!(w.on_at("uuh", now + MIN - 1), WatchOutcome::Cooling));
    assert_eq!(reply(w.on_at("UUH", now + MIN)).as_deref(), Some("wideuuh"));
    assert_eq!(reply(w.on_at("creepin", now)).as_deref(), Some("Creepin"));
    assert_eq!(reply(w.on_at("!play now", now)).as_deref(), Some("!play"));
    assert_eq!(reply(w.on_at("Plague", now)).as_deref(), Some("I love Vommy Mommy Lovegers"));
}

#[test]
fn mixed_case_words_are_never_matched() {
    // Words are stored as given but looked up in lower case.
    let mut w = create_watcher();
    assert!(matches!(w.on_at("ThugShaker", 100 * MIN), WatchOutcome::Ignored));
    assert!(matches!(w.on_at("thugshaker", 100 * MIN), WatchOutcome::Ignored));
    assert!(matches!(w.on_at("JaneRun", 100 * MIN), WatchOutcome::Ignored));
}

#[test]
fn only_the_first_word_counts() {
    let mut w = create_watcher();
    assert!(matches!(w.on_at("hello uuh", 100 * MIN), WatchOutcome::Ignored));
    assert!(matches!(w.on_at(" uuh", 100 * MIN), WatchOutcome::Ignored));
    assert!(matches!(w.on_at("", 100 * MIN), WatchOutcome::Ignored));
}

#[test]
fn cooldowns_are_per_word() {
    let mut w = Watcher::new(1000);
    w.add_responses(vec![("a", "A"), ("b", "B")]);
    let t = 10 * MIN;
    assert!(reply(w.on_at("a", t)).is_some());
    assert!(reply(w.on_at("b", t)).is_some());
    assert!(matches!(w.on_at("a", t + 1), WatchOutcome::Cooling));
}

#[test]
fn re_adding_a_word_replaces_it() {
    let mut w = Watcher::new(1000);
    w.add_response("a", "first");
    let t = 10 * MIN;
    assert!(reply(w.on_at("a", t)).is_some());
    w.add_responses(vec![("a", "second")]);
    assert_eq!(reply(w.on_at("a", t)).as_deref(), Some("second"));
}

#[test]
fn watcher_on_uses_the_clock() {
    let mut w = Watcher::new(60_000);
    w.add_response("hi", "hello");
    assert_eq!(reply(w.on("hi there")).as_deref(), Some("hello"));
    assert!(matches!(w.on("hi"), WatchOutcome::Cooling));
    assert!(matches!(w.on("nope"), WatchOutcome::Ignored));
}
