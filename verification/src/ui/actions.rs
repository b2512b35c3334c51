//! The typed commands the background tasks send to the UI state: a closed
//! enum in place of type-erased messages. Each command is one-way and
//! delivered at least once; the reducer applying them is keyed on
//! identities, so duplicated delivery is tolerated.

use vstd::prelude::*;

use crate::data::active_room::{EventOrTxnId, EventState, NewActiveRoomState};
use crate::data::MinRoomState;
use crate::util::{RoomId, UserId};

verus! {

/// One command for the UI state, produced by the session flow, the sync
/// handlers, or a background task.
pub enum UiCommand {
    /// The login flow completed; enter the authenticated state.
    FinishLogin,
    /// Insert this room summary into the sidebar, or replace the one
    /// stored under its id.
    AddOrUpdateRoom(MinRoomState),
    /// Open this room for viewing, discarding the previously active one.
    SetActiveRoom(NewActiveRoomState),
    /// Append a live entry at the back of the active room's timeline.
    AppendEvent { room_id: RoomId, sender: UserId, entry: EventState },
    /// Prepend a backfilled entry at the front of the active room's
    /// timeline.
    PrependEvent { room_id: RoomId, sender: UserId, entry: EventState },
    /// Remove the entry carrying this identity from the active room's
    /// timeline (absence is not an error).
    RemoveEvent(EventOrTxnId),
}

} // verus!
