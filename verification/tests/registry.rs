use jmc::bg::event_handlers::{
    on_room_create, on_room_name, route_event, RoomEvent, RoomTypeState, Route,
};
use jmc::data::active_room::{EventOrTxnId, EventState, EventTypeState};
use jmc::data::{MinRoomState, RoomKind, RoomRegistry, RoomSeed};
use jmc::util::{EventId, RoomId, UserId};

fn summary(id: &str, name: &str) -> MinRoomState {
    MinRoomState::new(
        RoomId::new(id.to_string()),
        Some(name.to_string()),
        None,
        RoomKind::Joined,
    )
}

fn names_of(reg: &RoomRegistry) -> Vec<(String, String)> {
    let mut out = Vec::new();
    for room in reg.rooms.iter() {
        out.push((room.id.raw.clone(), room.display_name.clone()));
    }
    out
}

#[test]
fn upsert_inserts_then_replaces() {
    let mut reg = RoomRegistry::new();
    reg.upsert(summary("!a:x.org", "Alpha"));
    reg.upsert(summary("!b:x.org", "Beta"));
    assert_eq!(reg.len(), 2);
    reg.upsert(summary("!a:x.org", "Alpha renamed"));
    assert_eq!(reg.len(), 2);
    assert_eq!(
        names_of(&reg),
        vec![
            ("!a:x.org".to_string(), "Alpha renamed".to_string()),
            ("!b:x.org".to_string(), "Beta".to_string())
        ]
    );
}

#[test]
fn upsert_twice_with_identical_content_is_idempotent() {
    let mut once = RoomRegistry::new();
    once.upsert(summary("!b:x.org", "Beta"));
    once.upsert(summary("!a:x.org", "Alpha"));
    let mut twice = RoomRegistry::new();
    twice.upsert(summary("!b:x.org", "Beta"));
    twice.upsert(summary("!a:x.org", "Alpha"));
    twice.upsert(summary("!a:x.org", "Alpha"));
    assert_eq!(names_of(&once), names_of(&twice));
}

#[test]
fn get_and_contains_follow_upserts() {
    let mut reg = RoomRegistry::new();
    let a = RoomId::new("!a:x.org".to_string());
    let missing = RoomId::new("!missing:x.org".to_string());
    assert!(!reg.contains(&a));
    reg.upsert(summary("!a:x.org", "Alpha"));
    assert!(reg.contains(&a));
    assert!(!reg.contains(&missing));
    assert_eq!(reg.get(&a).expect("present").display_name, "Alpha");
    assert!(reg.get(&missing).is_none());
}

#[test]
fn absent_display_name_becomes_sentinel() {
    let room = MinRoomState::new(
        RoomId::new("!a:x.org".to_string()),
        None,
        Some(vec![9u8, 8, 7]),
        RoomKind::Left,
    );
    assert_eq!(room.display_name, "<error>");
    assert_eq!(room.kind, RoomKind::Left);
    assert_eq!(room.icon, Some(vec![9u8, 8, 7]));
}

#[test]
fn tombstoned_rooms_are_excluded_from_enumeration() {
    let seeds = vec![
        RoomSeed { state: summary("!keep:x.org", "Keep"), tombstoned: false },
        RoomSeed { state: summary("!gone:x.org", "Gone"), tombstoned: true },
        RoomSeed { state: summary("!also:x.org", "Also"), tombstoned: false },
    ];
    let reg = jmc::data::enumerate_initial(seeds);
    assert_eq!(reg.len(), 2);
    assert!(reg.contains(&RoomId::new("!keep:x.org".to_string())));
    assert!(!reg.contains(&RoomId::new("!gone:x.org".to_string())));
    assert!(reg.contains(&RoomId::new("!also:x.org".to_string())));
}

#[test]
fn enumeration_deduplicates_by_room_id() {
    let seeds = vec![
        RoomSeed { state: summary("!a:x.org", "First"), tombstoned: false },
        RoomSeed { state: summary("!a:x.org", "Second"), tombstoned: false },
    ];
    let reg = jmc::data::enumerate_initial(seeds);
    assert_eq!(reg.len(), 1);
    assert_eq!(
        reg.get(&RoomId::new("!a:x.org".to_string())).expect("present").display_name,
        "Second"
    );
}

#[test]
fn room_create_with_plain_or_space_type_is_tracked() {
    let mut reg = RoomRegistry::new();
    assert!(on_room_create(&mut reg, &None, summary("!chat:x.org", "Chat")));
    assert!(on_room_create(
        &mut reg,
        &Some(RoomTypeState::Space),
        summary("!space:x.org", "Space")
    ));
    assert_eq!(reg.len(), 2);
}

#[test]
fn room_create_with_custom_type_is_ignored() {
    let mut reg = RoomRegistry::new();
    let accepted = on_room_create(
        &mut reg,
        &Some(RoomTypeState::Other("m.custom.kind".to_string())),
        summary("!odd:x.org", "Odd"),
    );
    assert!(!accepted);
    assert_eq!(reg.len(), 0);
}

#[test]
fn room_name_event_updates_the_summary() {
    let mut reg = RoomRegistry::new();
    reg.upsert(summary("!a:x.org", "Old name"));
    on_room_name(&mut reg, summary("!a:x.org", "New name"));
    assert_eq!(
        reg.get(&RoomId::new("!a:x.org".to_string())).expect("present").display_name,
        "New name"
    );
}

#[test]
fn selecting_a_room_replaces_the_active_one() {
    let mut user = jmc::data::UserState::default();
    assert!(user.active_room.is_none());
    user.set_active_room(jmc::data::active_room::NewActiveRoomState::new(
        &summary("!a:x.org", "Alpha"),
        None,
    ));
    assert_eq!(user.active_room.as_ref().expect("open").id.raw, "!a:x.org");
    // Switching rooms discards the previous room's state wholesale.
    user.set_active_room(jmc::data::active_room::NewActiveRoomState::new(
        &summary("!b:x.org", "Beta"),
        None,
    ));
    let active = user.active_room.as_ref().expect("open");
    assert_eq!(active.id.raw, "!b:x.org");
    assert!(active.timeline.is_empty());
    assert!(!active.pending_backfill);
}

#[test]
fn events_route_to_exactly_one_handler() {
    let create = RoomEvent::Create {
        room_id: RoomId::new("!a:x.org".to_string()),
        room_type: None,
    };
    let rename = RoomEvent::Rename { room_id: RoomId::new("!a:x.org".to_string()) };
    let message = RoomEvent::Message {
        room_id: RoomId::new("!a:x.org".to_string()),
        sender: UserId::new("@alice:x.org".to_string()),
        event: EventState {
            id: EventOrTxnId::EventId(EventId::new("$1".to_string())),
            sender: UserId::new("@alice:x.org".to_string()),
            event_type: EventTypeState::RoomMessage { display_string: "m".to_string() },
        },
        txn_id: None,
    };
    assert_eq!(route_event(&create), Route::CreateHandler);
    assert_eq!(route_event(&rename), Route::RenameHandler);
    assert_eq!(route_event(&message), Route::MessageHandler);
    assert_eq!(route_event(&RoomEvent::Unknown), Route::Dropped);
}
