use evdev::KeyCode;

use osm::events::{key_down, key_up, RawEvent};
use osm::keymap::Keymap;
use osm::translate::{translate_batch, translate_event};

fn keymap() -> Keymap {
    Keymap::from_pairs(&vec![
        (KeyCode::KEY_LEFTALT.0, KeyCode::KEY_HOME.0),
        (KeyCode::KEY_RIGHTALT.0, KeyCode::KEY_END.0),
    ])
}

fn translate(ev: RawEvent, pending: Option<u16>) -> (Vec<RawEvent>, Option<u16>) {
    translate_event(&keymap(), ev, pending)
}

#[test]
fn keydown() {
    let (evs, pending) = translate(key_down(KeyCode::KEY_A.0), None);
    assert_eq!(evs, vec![key_down(KeyCode::KEY_A.0)]);
    assert_eq!(pending, None);

    let (evs, pending) = translate(key_down(KeyCode::KEY_A.0), Some(KeyCode::KEY_LEFTALT.0));
    assert_eq!(
        evs,
        vec![key_down(KeyCode::KEY_LEFTALT.0), key_down(KeyCode::KEY_A.0)]
    );
    assert_eq!(pending, None);

    let (evs, pending) = translate(key_down(KeyCode::KEY_LEFTALT.0), None);
    assert_eq!(evs, vec![]);
    assert_eq!(pending, Some(KeyCode::KEY_LEFTALT.0));

    let (evs, pending) = translate(
        key_down(KeyCode::KEY_LEFTALT.0),
        Some(KeyCode::KEY_RIGHTALT.0),
    );
    assert_eq!(evs, vec![key_down(KeyCode::KEY_RIGHTALT.0)]);
    assert_eq!(pending, Some(KeyCode::KEY_LEFTALT.0));
}

#[test]
fn keyup() {
    let (evs, pending) = translate(key_up(KeyCode::KEY_A.0), None);
    assert_eq!(evs, vec![key_up(KeyCode::KEY_A.0)]);
    assert_eq!(pending, None);

    let (evs, pending) = translate(key_up(KeyCode::KEY_A.0), Some(KeyCode::KEY_LEFTALT.0));
    assert_eq!(
        evs,
        vec![key_down(KeyCode::KEY_LEFTALT.0), key_up(KeyCode::KEY_A.0)]
    );
    assert_eq!(pending, None);

    let (evs, pending) = translate(key_up(KeyCode::KEY_LEFTALT.0), None);
    assert_eq!(evs, vec![key_up(KeyCode::KEY_LEFTALT.0)]);
    assert_eq!(pending, None);

    let (evs, pending) = translate(
        key_up(KeyCode::KEY_LEFTALT.0),
        Some(KeyCode::KEY_LEFTALT.0),
    );
    assert_eq!(
        evs,
        vec![key_down(KeyCode::KEY_HOME.0), key_up(KeyCode::KEY_HOME.0)]
    );
    assert_eq!(pending, None);

    let (evs, pending) = translate(
        key_up(KeyCode::KEY_LEFTALT.0),
        Some(KeyCode::KEY_RIGHTALT.0),
    );
    assert_eq!(
        evs,
        vec![
            key_down(KeyCode::KEY_RIGHTALT.0),
            key_up(KeyCode::KEY_LEFTALT.0)
        ]
    );
    assert_eq!(pending, None);
}

#[test]
fn keyup_of_pending_key_without_mapping() {
    // The register can only name a key via key-down of a mapped key, but the
    // translator is total: releasing a pending key the map no longer knows
    // resolves it as a plain tap of itself.
    let km = Keymap::from_pairs(&vec![(KeyCode::KEY_RIGHTALT.0, KeyCode::KEY_END.0)]);
    let (evs, pending) = translate_event(
        &km,
        key_up(KeyCode::KEY_LEFTALT.0),
        Some(KeyCode::KEY_LEFTALT.0),
    );
    assert_eq!(evs, vec![key_up(KeyCode::KEY_LEFTALT.0)]);
    assert_eq!(pending, None);
}

#[test]
fn repeat_passes_through() {
    // An autorepeat carries a transition value that is neither the press nor
    // the release constant; it is echoed and the register is untouched.
    let repeat = RawEvent::Key {
        code: KeyCode::KEY_A.0,
        value: 2,
    };
    let (evs, pending) = translate(repeat, Some(KeyCode::KEY_LEFTALT.0));
    assert_eq!(evs, vec![repeat]);
    assert_eq!(pending, Some(KeyCode::KEY_LEFTALT.0));
}

#[test]
fn non_key_event_passes_through() {
    let syn = RawEvent::Other {
        kind: 0,
        code: 0,
        value: 0,
    };
    let (evs, pending) = translate(syn, Some(KeyCode::KEY_LEFTALT.0));
    assert_eq!(evs, vec![syn]);
    assert_eq!(pending, Some(KeyCode::KEY_LEFTALT.0));
}

#[test]
fn batch_carries_pending_between_events() {
    let km = keymap();
    let batch = vec![
        key_down(KeyCode::KEY_LEFTALT.0),
        key_down(KeyCode::KEY_A.0),
        key_up(KeyCode::KEY_A.0),
        key_up(KeyCode::KEY_LEFTALT.0),
    ];
    let (groups, pending) = translate_batch(&km, &batch, None);
    assert_eq!(
        groups,
        vec![
            vec![],
            vec![key_down(KeyCode::KEY_LEFTALT.0), key_down(KeyCode::KEY_A.0)],
            vec![key_up(KeyCode::KEY_A.0)],
            vec![key_up(KeyCode::KEY_LEFTALT.0)],
        ]
    );
    assert_eq!(pending, None);
}

#[test]
fn pending_carries_across_batches() {
    let km = keymap();
    let (groups, pending) = translate_batch(&km, &vec![key_down(KeyCode::KEY_LEFTALT.0)], None);
    assert_eq!(groups, vec![Vec::<RawEvent>::new()]);
    assert_eq!(pending, Some(KeyCode::KEY_LEFTALT.0));

    let (groups, pending) = translate_batch(&km, &vec![key_up(KeyCode::KEY_LEFTALT.0)], pending);
    assert_eq!(
        groups,
        vec![vec![key_down(KeyCode::KEY_HOME.0), key_up(KeyCode::KEY_HOME.0)]]
    );
    assert_eq!(pending, None);
}
