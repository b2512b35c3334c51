use jmc::data::active_room::{
    ActiveRoomState, EventGroupState, EventOrTxnId, EventState, EventTypeState, JoinedRoomState,
    NewActiveRoomState, Placement, RoomKindState,
};
use jmc::data::{MinRoomState, RoomKind};
use jmc::util::{EventId, RoomId, TransactionId, UserId};

fn room_id() -> RoomId {
    RoomId::new("!abc:example.org".to_string())
}

fn open_room() -> ActiveRoomState {
    let summary = MinRoomState::new(
        room_id(),
        Some("General".to_string()),
        None,
        RoomKind::Joined,
    );
    ActiveRoomState::open(NewActiveRoomState::new(&summary, None))
}

fn user(raw: &str) -> UserId {
    UserId::new(raw.to_string())
}

fn server_event(id: &str, sender: &str, body: &str) -> EventState {
    EventState {
        id: EventOrTxnId::EventId(EventId::new(id.to_string())),
        sender: user(sender),
        event_type: EventTypeState::RoomMessage { display_string: body.to_string() },
    }
}

fn optimistic_event(txn: &str, sender: &str, body: &str) -> EventState {
    EventState {
        id: EventOrTxnId::TxnId(TransactionId::from_string(txn.to_string())),
        sender: user(sender),
        event_type: EventTypeState::RoomMessage { display_string: body.to_string() },
    }
}

fn senders_of(room: &ActiveRoomState) -> Vec<String> {
    let mut out = Vec::new();
    for group in room.timeline.iter() {
        out.push(group.sender.raw.clone());
    }
    out
}

fn identities_of(room: &ActiveRoomState) -> Vec<String> {
    let mut out = Vec::new();
    for group in room.timeline.iter() {
        for ev in group.events.iter() {
            match &ev.id {
                EventOrTxnId::EventId(e) => out.push(format!("event:{}", e.raw)),
                EventOrTxnId::TxnId(t) => out.push(format!("txn:{}", t.raw)),
            }
        }
    }
    out
}

#[test]
fn append_groups_consecutive_senders() {
    let mut room = open_room();
    let alice = user("@alice:example.org");
    room.add_event(&room_id(), &alice, server_event("$1", "@alice:example.org", "hi"), Placement::Back);
    room.add_event(&room_id(), &alice, server_event("$2", "@alice:example.org", "there"), Placement::Back);
    assert_eq!(room.timeline.len(), 1);
    assert_eq!(room.timeline[0].events.len(), 2);
    let bob = user("@bob:example.org");
    room.add_event(&room_id(), &bob, server_event("$3", "@bob:example.org", "hey"), Placement::Back);
    assert_eq!(room.timeline.len(), 2);
    assert_eq!(room.timeline[1].sender.raw, "@bob:example.org");
}

#[test]
fn append_for_other_room_is_discarded() {
    let mut room = open_room();
    let other = RoomId::new("!other:example.org".to_string());
    let alice = user("@alice:example.org");
    room.add_event(&other, &alice, server_event("$1", "@alice:example.org", "hi"), Placement::Back);
    assert_eq!(room.timeline.len(), 0);
}

#[test]
fn no_adjacent_groups_share_a_sender() {
    let mut room = open_room();
    let senders = [
        "@alice:example.org",
        "@alice:example.org",
        "@bob:example.org",
        "@alice:example.org",
        "@carol:example.org",
        "@carol:example.org",
        "@carol:example.org",
        "@bob:example.org",
    ];
    for (i, s) in senders.iter().enumerate() {
        let ev = server_event(&format!("${i}"), s, "m");
        room.add_event(&room_id(), &user(s), ev, Placement::Back);
    }
    let got = senders_of(&room);
    for pair in got.windows(2) {
        assert_ne!(pair[0], pair[1]);
    }
    assert_eq!(got.len(), 5);
}

#[test]
fn backfill_prepends_at_the_front() {
    let mut room = open_room();
    let alice = user("@alice:example.org");
    let bob = user("@bob:example.org");
    room.add_event(&room_id(), &alice, server_event("$new", "@alice:example.org", "new"), Placement::Back);
    room.add_event(&room_id(), &bob, server_event("$old", "@bob:example.org", "old"), Placement::Front);
    room.add_event(&room_id(), &bob, server_event("$older", "@bob:example.org", "older"), Placement::Front);
    assert_eq!(senders_of(&room), vec!["@bob:example.org".to_string(), "@alice:example.org".to_string()]);
    assert_eq!(room.timeline[0].events.len(), 2);
    match &room.timeline[0].events[0].id {
        EventOrTxnId::EventId(e) => assert_eq!(e.raw, "$older"),
        EventOrTxnId::TxnId(_) => panic!("expected a server id at the front"),
    }
}

#[test]
fn echo_reconciliation_swaps_identity_without_duplicate() {
    let mut room = open_room();
    let me = user("@self:example.org");
    room.add_event(&room_id(), &me, optimistic_event("tx1", "@self:example.org", "hello"), Placement::Back);
    assert_eq!(identities_of(&room), vec!["txn:tx1".to_string()]);
    room.reconcile_echo(
        &room_id(),
        TransactionId::from_string("tx1".to_string()),
        &me,
        server_event("$xyz", "@self:example.org", "hello"),
    );
    assert_eq!(identities_of(&room), vec!["event:$xyz".to_string()]);
}

#[test]
fn echo_reconciliation_positions_by_confirmation_arrival() {
    let mut room = open_room();
    let me = user("@self:example.org");
    let bob = user("@bob:example.org");
    room.add_event(&room_id(), &me, optimistic_event("tx1", "@self:example.org", "mine"), Placement::Back);
    room.add_event(&room_id(), &bob, server_event("$b", "@bob:example.org", "later"), Placement::Back);
    room.reconcile_echo(
        &room_id(),
        TransactionId::from_string("tx1".to_string()),
        &me,
        server_event("$xyz", "@self:example.org", "mine"),
    );
    // The confirmed entry sits where the confirmation arrived: at the back.
    assert_eq!(
        identities_of(&room),
        vec!["event:$b".to_string(), "event:$xyz".to_string()]
    );
}

#[test]
fn echo_reconciliation_tolerates_missing_optimistic_entry() {
    let mut room = open_room();
    let me = user("@self:example.org");
    room.reconcile_echo(
        &room_id(),
        TransactionId::from_string("tx-gone".to_string()),
        &me,
        server_event("$xyz", "@self:example.org", "hello"),
    );
    assert_eq!(identities_of(&room), vec!["event:$xyz".to_string()]);
}

#[test]
fn reconciliation_orderings_agree_on_identities() {
    // Removal-then-append against append-then-removal: the same multiset
    // of identities either way.
    let mut first = open_room();
    let mut second = open_room();
    let me = user("@self:example.org");
    let bob = user("@bob:example.org");
    for room in [&mut first, &mut second] {
        room.add_event(&room_id(), &bob, server_event("$b", "@bob:example.org", "x"), Placement::Back);
        room.add_event(&room_id(), &me, optimistic_event("tx1", "@self:example.org", "y"), Placement::Back);
    }
    // First ordering: removal, then append of the confirmation.
    first.remove_event(&EventOrTxnId::TxnId(TransactionId::from_string("tx1".to_string())));
    first.add_event(&room_id(), &me, server_event("$xyz", "@self:example.org", "y"), Placement::Back);
    // Second ordering: the confirmation lands before the removal runs.
    second.add_event(&room_id(), &me, server_event("$xyz", "@self:example.org", "y"), Placement::Back);
    second.remove_event(&EventOrTxnId::TxnId(TransactionId::from_string("tx1".to_string())));
    let mut a = identities_of(&first);
    let mut b = identities_of(&second);
    a.sort();
    b.sort();
    assert_eq!(a, b);
    assert_eq!(a.len(), 2);
}

#[test]
fn remove_event_drops_emptied_group() {
    let mut room = open_room();
    let alice = user("@alice:example.org");
    let bob = user("@bob:example.org");
    room.add_event(&room_id(), &alice, server_event("$1", "@alice:example.org", "a"), Placement::Back);
    room.add_event(&room_id(), &bob, server_event("$2", "@bob:example.org", "b"), Placement::Back);
    let removed = room.remove_event(&EventOrTxnId::EventId(EventId::new("$2".to_string())));
    assert!(removed);
    assert_eq!(senders_of(&room), vec!["@alice:example.org".to_string()]);
}

#[test]
fn remove_event_keeps_group_with_other_entries() {
    let mut room = open_room();
    let alice = user("@alice:example.org");
    room.add_event(&room_id(), &alice, server_event("$1", "@alice:example.org", "a"), Placement::Back);
    room.add_event(&room_id(), &alice, server_event("$2", "@alice:example.org", "b"), Placement::Back);
    let removed = room.remove_event(&EventOrTxnId::EventId(EventId::new("$1".to_string())));
    assert!(removed);
    assert_eq!(room.timeline.len(), 1);
    assert_eq!(identities_of(&room), vec!["event:$2".to_string()]);
}

#[test]
fn remove_event_without_match_changes_nothing() {
    let mut room = open_room();
    let alice = user("@alice:example.org");
    room.add_event(&room_id(), &alice, server_event("$1", "@alice:example.org", "a"), Placement::Back);
    let removed = room.remove_event(&EventOrTxnId::EventId(EventId::new("$missing".to_string())));
    assert!(!removed);
    assert_eq!(identities_of(&room), vec!["event:$1".to_string()]);
}

#[test]
fn send_message_appends_optimistic_entry_and_echo_replaces_it() {
    let mut room = open_room();
    room.kind = RoomKindState::Joined(JoinedRoomState { message_input: "hello world".to_string() });
    let me = user("@self:example.org");
    let (txn, text) = room.send_message(&me).expect("a joined room sends");
    assert_eq!(text, "hello world");
    assert_eq!(room.timeline.len(), 1);
    assert_eq!(identities_of(&room), vec![format!("txn:{}", txn.raw)]);
    // The echo carries the same correlation token and replaces the entry.
    room.reconcile_echo(&room_id(), txn, &me, server_event("$done", "@self:example.org", "hello world"));
    assert_eq!(identities_of(&room), vec!["event:$done".to_string()]);
}

#[test]
fn send_message_outside_joined_room_does_nothing() {
    let mut room = open_room();
    room.kind = RoomKindState::left();
    let me = user("@self:example.org");
    assert!(room.send_message(&me).is_none());
    assert_eq!(room.timeline.len(), 0);
}

#[test]
fn pagination_requests_are_mutually_exclusive() {
    let mut room = open_room();
    assert!(room.request_backfill());
    // A second trigger while the first request is in flight is suppressed.
    assert!(!room.request_backfill());
    assert!(room.pending_backfill);
    room.finish_backfill();
    assert!(!room.pending_backfill);
    assert!(room.request_backfill());
}

#[test]
fn concrete_grouping_and_echo_scenario() {
    let mut room = open_room();
    let alice = user("@alice:example.org");
    let bob = user("@bob:example.org");
    let me = user("@self:example.org");
    room.add_event(&room_id(), &alice, server_event("$e1", "@alice:example.org", "1"), Placement::Back);
    room.add_event(&room_id(), &alice, server_event("$e2", "@alice:example.org", "2"), Placement::Back);
    assert_eq!(senders_of(&room), vec!["@alice:example.org".to_string()]);
    assert_eq!(room.timeline[0].events.len(), 2);
    room.add_event(&room_id(), &bob, server_event("$e3", "@bob:example.org", "3"), Placement::Back);
    assert_eq!(
        senders_of(&room),
        vec!["@alice:example.org".to_string(), "@bob:example.org".to_string()]
    );
    room.add_event(&room_id(), &me, optimistic_event("tx1", "@self:example.org", "4"), Placement::Back);
    assert_eq!(
        identities_of(&room),
        vec![
            "event:$e1".to_string(),
            "event:$e2".to_string(),
            "event:$e3".to_string(),
            "txn:tx1".to_string()
        ]
    );
    room.reconcile_echo(
        &room_id(),
        TransactionId::from_string("tx1".to_string()),
        &me,
        server_event("$xyz", "@self:example.org", "4"),
    );
    // Group structure preserved, identity swapped, no duplicate.
    assert_eq!(
        identities_of(&room),
        vec![
            "event:$e1".to_string(),
            "event:$e2".to_string(),
            "event:$e3".to_string(),
            "event:$xyz".to_string()
        ]
    );
    assert_eq!(
        senders_of(&room),
        vec![
            "@alice:example.org".to_string(),
            "@bob:example.org".to_string(),
            "@self:example.org".to_string()
        ]
    );
}

#[test]
fn opening_a_room_discards_previous_state() {
    let mut room = open_room();
    let alice = user("@alice:example.org");
    room.add_event(&room_id(), &alice, server_event("$1", "@alice:example.org", "a"), Placement::Back);
    room.request_backfill();
    let summary = MinRoomState::new(
        RoomId::new("!second:example.org".to_string()),
        Some("Second".to_string()),
        None,
        RoomKind::Invited,
    );
    let fresh = ActiveRoomState::open(NewActiveRoomState::new(&summary, Some(vec![1u8, 2, 3])));
    assert_eq!(fresh.id.raw, "!second:example.org");
    assert_eq!(fresh.timeline.len(), 0);
    assert!(!fresh.pending_backfill);
    assert!(matches!(fresh.kind, RoomKindState::Invited(_)));
    assert_eq!(fresh.icon, Some(vec![1u8, 2, 3]));
    assert!(room.pending_backfill);
}

#[test]
fn message_handler_distinguishes_echo_and_live() {
    let mut room = open_room();
    let me = user("@self:example.org");
    room.add_event(&room_id(), &me, optimistic_event("tx9", "@self:example.org", "m"), Placement::Back);
    // A live message without correlation metadata is a plain append.
    jmc::bg::event_handlers::on_room_message(
        &mut room,
        &room_id(),
        &user("@bob:example.org"),
        server_event("$live", "@bob:example.org", "l"),
        None,
    );
    // An echo carrying the transaction id replaces the optimistic entry.
    jmc::bg::event_handlers::on_room_message(
        &mut room,
        &room_id(),
        &me,
        server_event("$echo", "@self:example.org", "m"),
        Some(TransactionId::from_string("tx9".to_string())),
    );
    assert_eq!(
        identities_of(&room),
        vec!["event:$live".to_string(), "event:$echo".to_string()]
    );
}

fn group_of(sender: &str, ids: &[&str]) -> EventGroupState {
    EventGroupState {
        sender: user(sender),
        sender_display_name: sender.to_string(),
        events: ids.iter().map(|i| server_event(i, sender, "m")).collect(),
    }
}

#[test]
fn removal_between_same_sender_groups_keeps_entries_in_order() {
    // A removal may leave two same-sender groups adjacent; the entries and
    // their order survive.
    let mut room = open_room();
    room.timeline = vec![
        group_of("@alice:example.org", &["$a1"]),
        group_of("@bob:example.org", &["$b1"]),
        group_of("@alice:example.org", &["$a2"]),
    ];
    let removed = room.remove_event(&EventOrTxnId::EventId(EventId::new("$b1".to_string())));
    assert!(removed);
    assert_eq!(
        identities_of(&room),
        vec!["event:$a1".to_string(), "event:$a2".to_string()]
    );
    // The two surviving groups are the old ones, not a merged one.
    assert_eq!(room.timeline.len(), 2);
    assert_eq!(room.timeline[0].events.len(), 1);
    assert_eq!(room.timeline[1].events.len(), 1);
}
