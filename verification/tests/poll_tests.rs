use bmw::poll::{events_from, wait_time, CtlOp, Event, EventIn, EventType, EventTypeIn, FilterSet, Interest};

#[test]
fn registrations_add_then_modify() {
    let mut f = FilterSet::new(4);
    let r = f.register(&EventIn { handle: 2, etype: EventTypeIn::Read }).unwrap();
    assert_eq!(r.op, CtlOp::Add);
    assert_eq!(r.handle, 2);
    assert_eq!(r.interest, Interest { read: true, write: false, hangup: true, edge: true });
    let r = f.register(&EventIn { handle: 2, etype: EventTypeIn::Write }).unwrap();
    assert_eq!(r.op, CtlOp::Mod);
    assert_eq!(r.interest, Interest { read: true, write: true, hangup: true, edge: true });
    let r = f.register(&EventIn { handle: 2, etype: EventTypeIn::Suspend }).unwrap();
    assert_eq!(r.op, CtlOp::Del);
    assert_eq!(r.interest, Interest { read: false, write: false, hangup: false, edge: false });
    let r = f.register(&EventIn { handle: 2, etype: EventTypeIn::Resume }).unwrap();
    assert_eq!(r.op, CtlOp::Add);
}

#[test]
fn registrations_grow_the_set() {
    let mut f = FilterSet::new(4);
    // a read past the end grows the set with unregistered entries
    let r = f.register(&EventIn { handle: 10, etype: EventTypeIn::Accept }).unwrap();
    assert_eq!(r.op, CtlOp::Add);
    // the entries added for a write are taken as registered
    let r = f.register(&EventIn { handle: 200, etype: EventTypeIn::Write }).unwrap();
    assert_eq!(r.op, CtlOp::Mod);
    let r = f.register(&EventIn { handle: 250, etype: EventTypeIn::Read }).unwrap();
    assert_eq!(r.op, CtlOp::Mod);
    assert!(f.register(&EventIn { handle: -1, etype: EventTypeIn::Read }).is_err());
    let e = f.register(&EventIn { handle: -1, etype: EventTypeIn::Suspend }).unwrap_err();
    assert_eq!(
        e.kind().message_string(),
        "TryFromIntError: out of range integral type conversion attempted".to_string()
    );
}

#[test]
fn reports_become_events() {
    let ev = events_from(&[(3, true, true), (4, false, true), (5, false, false), (6, true, false)]);
    assert_eq!(
        ev,
        vec![
            Event { handle: 3, etype: EventType::Write },
            Event { handle: 3, etype: EventType::Read },
            Event { handle: 4, etype: EventType::Read },
            Event { handle: 6, etype: EventType::Write },
        ]
    );
}

#[test]
fn wait_is_what_is_left_of_the_period() {
    assert_eq!(wait_time(true, 1000, 500, 100).unwrap(), 0);
    assert_eq!(wait_time(false, 1000, 500, 100).unwrap(), 600);
    assert_eq!(wait_time(false, 1000, 5000, 100).unwrap(), 0);
    assert!(wait_time(false, u128::MAX, 0, 0).is_err());
}
