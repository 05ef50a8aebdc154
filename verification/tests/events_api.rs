use termip::events::{Event, EventBatch, KeyCode, KeyEvent, KeyModifiers};
use termip::parse::parse_batch;

fn key(code: KeyCode) -> Event {
    Event::Key(KeyEvent { code, modifiers: KeyModifiers::empty() })
}

#[test]
fn empty_batch_has_no_events() {
    let batch = EventBatch::empty();
    assert_eq!(batch.len(), 0);
    assert!(!batch.pressed(KeyCode::Char('q')));
}

#[test]
fn pressed_finds_a_key_anywhere_in_the_batch() {
    let batch = parse_batch(b"ab\x1b[6;3Rq".to_vec()).expect("supported input");
    assert!(batch.pressed(KeyCode::Char('q')));
    assert!(batch.pressed(KeyCode::Char('a')));
    assert!(!batch.pressed(KeyCode::Char('z')));
    assert!(!batch.pressed(KeyCode::UpArrow));
}

#[test]
fn pressed_is_exactly_containment_of_the_key() {
    // True only when a Key event carries the code, whatever else is there.
    let batch = EventBatch::from(vec![
        Event::FocusGained,
        Event::Cursor(1, 1),
        key(KeyCode::Char('q')),
    ]);
    assert!(batch.pressed(KeyCode::Char('q')));
    let without = EventBatch::from(vec![Event::FocusGained, Event::Cursor(1, 1)]);
    assert!(!without.pressed(KeyCode::Char('q')));
}

#[test]
fn pressed_ignores_modifiers_on_the_key() {
    let batch = EventBatch::from(vec![Event::Key(KeyEvent {
        code: KeyCode::BackTab,
        modifiers: KeyModifiers::shift(),
    })]);
    assert!(batch.pressed(KeyCode::BackTab));
}

#[test]
fn batch_iteration_keeps_order() {
    let batch = parse_batch(b"abc".to_vec()).expect("supported input");
    let mut iter = batch.iter();
    assert_eq!(iter.next(), Some(&key(KeyCode::Char('a'))));
    assert_eq!(iter.next(), Some(&key(KeyCode::Char('b'))));
    assert_eq!(iter.next(), Some(&key(KeyCode::Char('c'))));
    assert_eq!(iter.next(), None);
    assert_eq!(iter.next(), None);
}

#[test]
fn batch_get_indexes_in_arrival_order() {
    let batch = parse_batch(b"xy".to_vec()).expect("supported input");
    assert_eq!(batch.len(), 2);
    assert_eq!(batch.get(0), key(KeyCode::Char('x')));
    assert_eq!(batch.get(1), key(KeyCode::Char('y')));
}

#[test]
fn into_events_hands_back_the_same_events() {
    let events = vec![key(KeyCode::Enter), Event::FocusLost];
    let batch = EventBatch::from(events.clone());
    assert_eq!(batch.into_events(), events);
}

#[test]
fn event_pressed_matches_only_key_events() {
    assert!(key(KeyCode::Enter).pressed(KeyCode::Enter));
    assert!(!key(KeyCode::Enter).pressed(KeyCode::Tab));
    assert!(!Event::FocusGained.pressed(KeyCode::Enter));
    assert!(!Event::Cursor(1, 2).pressed(KeyCode::Enter));
}

#[test]
fn event_pressed_modified_compares_modifiers_too() {
    let shifted = KeyEvent { code: KeyCode::BackTab, modifiers: KeyModifiers::shift() };
    let bare = KeyEvent { code: KeyCode::BackTab, modifiers: KeyModifiers::empty() };
    assert!(Event::Key(shifted).pressed_modified(shifted));
    assert!(!Event::Key(shifted).pressed_modified(bare));
    assert!(!Event::FocusGained.pressed_modified(bare));
}

#[test]
fn key_code_from_wraps_as_unmodified_key_event() {
    let ev: Event = Event::from(KeyCode::Home);
    assert_eq!(ev, key(KeyCode::Home));
}

#[test]
fn modifier_sets_combine_as_bit_sets() {
    let none = KeyModifiers::empty();
    assert!(none.is_empty());
    let shift = KeyModifiers::shift();
    assert!(!shift.is_empty());
    let combined = shift.union(KeyModifiers::control()).union(KeyModifiers::alt());
    assert!(combined.contains(KeyModifiers::shift()));
    assert!(combined.contains(KeyModifiers::control()));
    assert!(combined.contains(KeyModifiers::alt()));
    assert!(!combined.contains(KeyModifiers::meta()));
    assert!(combined.contains(none));
    assert_eq!(shift.union(shift), shift);
    let all = combined
        .union(KeyModifiers::super_key())
        .union(KeyModifiers::hyper())
        .union(KeyModifiers::meta());
    assert!(all.contains(combined));
    assert_ne!(all, combined);
}
