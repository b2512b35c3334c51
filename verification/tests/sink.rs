use jmc::data::active_room::{
    EventOrTxnId, EventState, EventTypeState, NewActiveRoomState,
};
use jmc::data::{AppState, LoginState, MinRoomState, RoomKind};
use jmc::ui::actions::UiCommand;
use jmc::ui::apply_command;
use jmc::util::{EventId, RoomId, UserId};

fn summary(id: &str, name: &str) -> MinRoomState {
    MinRoomState::new(
        RoomId::new(id.to_string()),
        Some(name.to_string()),
        None,
        RoomKind::Joined,
    )
}

fn entry(id: &str, sender: &str) -> EventState {
    EventState {
        id: EventOrTxnId::EventId(EventId::new(id.to_string())),
        sender: UserId::new(sender.to_string()),
        event_type: EventTypeState::RoomMessage { display_string: "m".to_string() },
    }
}

fn append(room: &str, sender: &str, id: &str) -> UiCommand {
    UiCommand::AppendEvent {
        room_id: RoomId::new(room.to_string()),
        sender: UserId::new(sender.to_string()),
        entry: entry(id, sender),
    }
}

#[test]
fn commands_before_login_are_dropped() {
    let mut state = AppState::Login(LoginState::default());
    apply_command(&mut state, UiCommand::AddOrUpdateRoom(summary("!a:x.org", "Alpha")));
    assert!(matches!(state, AppState::Login(_)));
}

#[test]
fn finish_login_enters_the_authenticated_state() {
    let mut state = AppState::Login(LoginState::default());
    apply_command(&mut state, UiCommand::FinishLogin);
    match &state {
        AppState::LoggedIn(user) => {
            assert_eq!(user.rooms.len(), 0);
            assert!(user.active_room.is_none());
        }
        _ => panic!("expected the authenticated state"),
    }
}

#[test]
fn sink_commands_drive_the_whole_flow() {
    let mut state = AppState::Login(LoginState::default());
    apply_command(&mut state, UiCommand::FinishLogin);
    apply_command(&mut state, UiCommand::AddOrUpdateRoom(summary("!a:x.org", "Alpha")));
    apply_command(&mut state, UiCommand::AddOrUpdateRoom(summary("!b:x.org", "Beta")));
    apply_command(
        &mut state,
        UiCommand::SetActiveRoom(NewActiveRoomState::new(&summary("!a:x.org", "Alpha"), None)),
    );
    // A live event for the active room, one for another room, one
    // backfilled entry, and a removal.
    apply_command(&mut state, append("!a:x.org", "@alice:x.org", "$1"));
    apply_command(&mut state, append("!b:x.org", "@bob:x.org", "$elsewhere"));
    apply_command(
        &mut state,
        UiCommand::PrependEvent {
            room_id: RoomId::new("!a:x.org".to_string()),
            sender: UserId::new("@carol:x.org".to_string()),
            entry: entry("$0", "@carol:x.org"),
        },
    );
    apply_command(
        &mut state,
        UiCommand::RemoveEvent(EventOrTxnId::EventId(EventId::new("$1".to_string()))),
    );
    match &state {
        AppState::LoggedIn(user) => {
            assert_eq!(user.rooms.len(), 2);
            let active = user.active_room.as_ref().expect("a room is open");
            assert_eq!(active.id.raw, "!a:x.org");
            assert_eq!(active.timeline.len(), 1);
            assert_eq!(active.timeline[0].sender.raw, "@carol:x.org");
        }
        _ => panic!("expected the authenticated state"),
    }
}

#[test]
fn timeline_commands_without_an_open_room_are_dropped() {
    let mut state = AppState::Login(LoginState::default());
    apply_command(&mut state, UiCommand::FinishLogin);
    apply_command(&mut state, append("!a:x.org", "@alice:x.org", "$1"));
    apply_command(
        &mut state,
        UiCommand::RemoveEvent(EventOrTxnId::EventId(EventId::new("$1".to_string()))),
    );
    match &state {
        AppState::LoggedIn(user) => assert!(user.active_room.is_none()),
        _ => panic!("expected the authenticated state"),
    }
}
