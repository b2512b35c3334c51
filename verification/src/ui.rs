//! The UI-side reducer: applies the typed commands of the event sink to
//! the top-level state, one at a time, on the UI thread.
//!
//! A command whose recipient is missing — anything but `FinishLogin`
//! before login, a timeline command with no room open — is dropped: the
//! sink is best-effort notification, not a correctness requirement.

pub mod actions;

use vstd::prelude::*;

use crate::data::active_room::{
    back_appended, entries_of, front_prepended, spec_remove_first, ActiveRoomState, EventState,
    Placement,
};
use crate::data::{spec_upsert, AppState, MinRoomState};
use crate::util::{RoomId, UserId};
use self::actions::UiCommand;

verus! {

/// The authenticated state keeps its invariants: unique room ids in the
/// sidebar, displayable groups in the open timeline.
pub open spec fn app_state_wf(s: AppState) -> bool {
    match s {
        AppState::LoggedIn(u) => u.rooms.wf() && match u.active_room {
            Some(r) => r.wf(),
            None => true,
        },
        _ => true,
    }
}

/// `a1` is `a0` with one entry added at the given end of the timeline (or
/// untouched, for an event of another room); everything else is kept.
pub open spec fn event_added(
    a1: ActiveRoomState,
    a0: ActiveRoomState,
    room_id: RoomId,
    sender: UserId,
    entry: EventState,
    placement: Placement,
) -> bool {
    &&& a1.id@ == a0.id@
    &&& a1.display_name@ == a0.display_name@
    &&& a1.icon == a0.icon
    &&& a1.kind == a0.kind
    &&& a1.pending_backfill == a0.pending_backfill
    &&& room_id@ != a0.id@ ==> a1.timeline@ == a0.timeline@
    &&& (room_id@ == a0.id@ && placement is Back) ==> back_appended(
        a1.timeline@,
        a0.timeline@,
        sender@,
        entry,
    )
    &&& (room_id@ == a0.id@ && placement is Front) ==> front_prepended(
        a1.timeline@,
        a0.timeline@,
        sender@,
        entry,
    )
}

/// `a1` is `a0` with the first entry of the given identity removed at its
/// group position — the group dropped exactly when it held that one entry,
/// every other group untouched (untouched entirely when none matches);
/// everything else is kept.
pub open spec fn event_removed(
    a1: ActiveRoomState,
    a0: ActiveRoomState,
    id: crate::data::active_room::EventOrTxnId,
) -> bool {
    &&& a1.id@ == a0.id@
    &&& a1.display_name@ == a0.display_name@
    &&& a1.icon == a0.icon
    &&& a1.kind == a0.kind
    &&& a1.pending_backfill == a0.pending_backfill
    &&& entries_of(a1.timeline@) == spec_remove_first(entries_of(a0.timeline@), id)
    &&& crate::data::active_room::timeline_entry_removed(a1.timeline@, a0.timeline@, id)
}

/// Applies one sink command to the top-level state. Commands for a
/// recipient that is not there are dropped without error; applying is
/// keyed on identities, so a command delivered twice is tolerated.
pub fn apply_command(state: &mut AppState, command: UiCommand)
    requires
        app_state_wf(*old(state)),
        command matches UiCommand::AppendEvent { room_id, sender, entry } ==> entry.sender@
            == sender@,
        command matches UiCommand::PrependEvent { room_id, sender, entry } ==> entry.sender@
            == sender@,
    ensures
        app_state_wf(*final(state)),
        command is FinishLogin ==> (*final(state) matches AppState::LoggedIn(u) && {
            &&& u.rooms.rooms@ == Seq::<MinRoomState>::empty()
            &&& u.active_room is None
        }),
        (!(*old(state) is LoggedIn) && !(command is FinishLogin)) ==> *final(state) == *old(
            state,
        ),
        *old(state) matches AppState::LoggedIn(u0) ==> match command {
            UiCommand::FinishLogin => true,
            UiCommand::AddOrUpdateRoom(room) => *final(state) matches AppState::LoggedIn(u1) && {
                &&& u1.rooms.rooms@ == spec_upsert(u0.rooms.rooms@, room)
                &&& u1.active_room == u0.active_room
            },
            UiCommand::SetActiveRoom(new) => *final(state) matches AppState::LoggedIn(u1) && {
                &&& u1.rooms == u0.rooms
                &&& u1.active_room matches Some(a) && {
                    &&& a.id@ == new.id@
                    &&& a.display_name@ == new.display_name@
                    &&& a.icon == new.icon
                    &&& a.kind == new.kind
                    &&& a.timeline@.len() == 0
                    &&& !a.pending_backfill
                }
            },
            UiCommand::AppendEvent { room_id, sender, entry } => *final(state) matches AppState::LoggedIn(u1) && {
                &&& u1.rooms == u0.rooms
                &&& match (u0.active_room, u1.active_room) {
                    (None, None) => u1 == u0,
                    (Some(a0), Some(a1)) => event_added(a1, a0, room_id, sender, entry, Placement::Back),
                    _ => false,
                }
            },
            UiCommand::PrependEvent { room_id, sender, entry } => *final(state) matches AppState::LoggedIn(u1) && {
                &&& u1.rooms == u0.rooms
                &&& match (u0.active_room, u1.active_room) {
                    (None, None) => u1 == u0,
                    (Some(a0), Some(a1)) => event_added(a1, a0, room_id, sender, entry, Placement::Front),
                    _ => false,
                }
            },
            UiCommand::RemoveEvent(id) => *final(state) matches AppState::LoggedIn(u1) && {
                &&& u1.rooms == u0.rooms
                &&& match (u0.active_room, u1.active_room) {
                    (None, None) => u1 == u0,
                    (Some(a0), Some(a1)) => event_removed(a1, a0, id),
                    _ => false,
                }
            },
        },
{
    match command {
        UiCommand::FinishLogin => {
            state.finish_login();
        }
        UiCommand::AddOrUpdateRoom(room) => {
            if let AppState::LoggedIn(user) = state {
                user.rooms.upsert(room);
            }
        }
        UiCommand::SetActiveRoom(new) => {
            if let AppState::LoggedIn(user) = state {
                user.set_active_room(new);
            }
        }
        UiCommand::AppendEvent { room_id, sender, entry } => {
            if let AppState::LoggedIn(user) = state {
                if let Some(active) = &mut user.active_room {
                    active.add_event(&room_id, &sender, entry, Placement::Back);
                }
            }
        }
        UiCommand::PrependEvent { room_id, sender, entry } => {
            if let AppState::LoggedIn(user) = state {
                if let Some(active) = &mut user.active_room {
                    active.add_event(&room_id, &sender, entry, Placement::Front);
                }
            }
        }
        UiCommand::RemoveEvent(id) => {
            if let AppState::LoggedIn(user) = state {
                if let Some(active) = &mut user.active_room {
                    active.remove_event(&id);
                }
            }
        }
    }
}

} // verus!
