use witchcraft_server::api::union::{find_variant, UnionAction, UnionDecoder, UnionError, UnionEvent};

const NAMES: [&str; 2] = ["generic", "threadDump"];

fn key(k: &str) -> UnionEvent {
    UnionEvent::Key(Some(k.to_string()))
}

// Feeds events to a new decoder and returns every action it asked for.
fn run(events: Vec<UnionEvent>) -> Vec<UnionAction> {
    let mut d = UnionDecoder::new();
    let mut actions = Vec::new();
    for e in events {
        let (next, action) = d.step(&NAMES, e);
        d = next;
        actions.push(action);
    }
    actions
}

#[test]
fn tag_first_envelope() {
    let actions = run(vec![
        key("type"),
        UnionEvent::Tag("threadDump".to_string()),
        key("threadDump"),
        UnionEvent::Value,
        UnionEvent::Key(None),
    ]);
    assert_eq!(
        actions,
        vec![
            UnionAction::ReadTag,
            UnionAction::ReadKey,
            UnionAction::ReadValue(1),
            UnionAction::ReadKey,
            UnionAction::Finish(1),
        ]
    );
}

#[test]
fn value_first_envelope() {
    let actions = run(vec![
        key("generic"),
        UnionEvent::Value,
        key("type"),
        UnionEvent::Tag("generic".to_string()),
        UnionEvent::Key(None),
    ]);
    assert_eq!(
        actions,
        vec![
            UnionAction::ReadValue(0),
            UnionAction::ReadKey,
            UnionAction::ReadTag,
            UnionAction::ReadKey,
            UnionAction::Finish(0),
        ]
    );
}

#[test]
fn refused_envelopes() {
    assert_eq!(run(vec![UnionEvent::Key(None)]), vec![UnionAction::Fail(UnionError::MissingType)]);
    assert_eq!(
        run(vec![key("bogus")]),
        vec![UnionAction::Fail(UnionError::UnknownVariant("bogus".to_string()))]
    );
    assert_eq!(
        run(vec![key("type"), UnionEvent::Tag("generic".to_string()), UnionEvent::Key(None)])[2],
        UnionAction::Fail(UnionError::MissingValue(0))
    );
    assert_eq!(
        run(vec![key("type"), UnionEvent::Tag("generic".to_string()), key("threadDump")])[2],
        UnionAction::Fail(UnionError::WrongVariant { found: 1, expected: 0 })
    );
    assert_eq!(
        run(vec![key("type"), UnionEvent::Tag("nope".to_string())])[1],
        UnionAction::Fail(UnionError::UnknownVariant("nope".to_string()))
    );
    assert_eq!(
        run(vec![key("generic"), UnionEvent::Value, UnionEvent::Key(None)])[2],
        UnionAction::Fail(UnionError::MissingType)
    );
    assert_eq!(
        run(vec![key("generic"), UnionEvent::Value, key("threadDump")])[2],
        UnionAction::Fail(UnionError::NotTypeKey("threadDump".to_string()))
    );
    assert_eq!(
        run(vec![key("generic"), UnionEvent::Value, key("type"), UnionEvent::Tag("threadDump".to_string())])[3],
        UnionAction::Fail(UnionError::WrongVariant { found: 1, expected: 0 })
    );
    let extra = run(vec![
        key("type"),
        UnionEvent::Tag("generic".to_string()),
        key("generic"),
        UnionEvent::Value,
        key("type"),
    ]);
    assert_eq!(extra[4], UnionAction::Fail(UnionError::TooManyFields));
    let unknown_extra = run(vec![
        key("type"),
        UnionEvent::Tag("generic".to_string()),
        key("generic"),
        UnionEvent::Value,
        key("other"),
    ]);
    assert_eq!(unknown_extra[4], UnionAction::Fail(UnionError::UnknownVariant("other".to_string())));
}

#[test]
fn variant_lookup() {
    assert_eq!(find_variant(&NAMES, "generic"), Some(0));
    assert_eq!(find_variant(&NAMES, "threadDump"), Some(1));
    assert_eq!(find_variant(&NAMES, "threaddump"), None);
    assert_eq!(find_variant(&["a", "b", "a"], "a"), Some(0));
}
