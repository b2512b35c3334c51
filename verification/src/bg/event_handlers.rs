//! Handlers for the protocol events the sync loop delivers: room creation,
//! room renames, and room messages. Each decoded event is routed to exactly
//! one handler; unknown kinds are dropped without error. Handlers key on
//! identities, so a batch delivered twice changes nothing the second time.

use vstd::prelude::*;

use crate::data::active_room::{ActiveRoomState, EventState, Placement};
use crate::data::{spec_upsert, MinRoomState, RoomRegistry};
use crate::data::active_room::{back_appended, entries_of, spec_remove_first, EventOrTxnId};
use crate::util::{RoomId, TransactionId, UserId};

verus! {

/// The classification a room-create event carries. Rooms with a type other
/// than a plain "space" container are not tracked.
pub enum RoomTypeState {
    /// A plain "space" container grouping other rooms.
    Space,
    /// Any other classification, carried verbatim.
    Other(String),
}

/// A decoded event as the sync loop hands it over.
pub enum RoomEvent {
    /// A room came into existence, possibly carrying a type classification.
    Create { room_id: RoomId, room_type: Option<RoomTypeState> },
    /// A room's display name changed.
    Rename { room_id: RoomId },
    /// A message event, possibly echoing a local send (then the metadata
    /// carries the original transaction id).
    Message { room_id: RoomId, sender: UserId, event: EventState, txn_id: Option<TransactionId> },
    /// Anything else the server may send.
    Unknown,
}

/// Which handler an event goes to.
#[derive(Clone, Copy, PartialEq, Eq, Structural, Debug)]
pub enum Route {
    CreateHandler,
    RenameHandler,
    MessageHandler,
    Dropped,
}

/// Routes a decoded event to exactly one handler; unknown kinds are
/// dropped without error.
pub fn route_event(event: &RoomEvent) -> (r: Route)
    ensures
        r == Route::CreateHandler <==> event is Create,
        r == Route::RenameHandler <==> event is Rename,
        r == Route::MessageHandler <==> event is Message,
        r == Route::Dropped <==> event is Unknown,
{
    match event {
        RoomEvent::Create { .. } => Route::CreateHandler,
        RoomEvent::Rename { .. } => Route::RenameHandler,
        RoomEvent::Message { .. } => Route::MessageHandler,
        RoomEvent::Unknown => Route::Dropped,
    }
}

/// Whether a room-create event's classification admits the room into the
/// registry: plain chat rooms (no type) and plain "space" containers do.
pub open spec fn create_admitted(room_type: Option<RoomTypeState>) -> bool {
    match room_type {
        None => true,
        Some(RoomTypeState::Space) => true,
        Some(RoomTypeState::Other(_)) => false,
    }
}

/// A room came into existence: upsert its summary, unless its type says it
/// is not a trackable room. Upserting is idempotent, so seeing the event
/// again changes nothing.
pub fn on_room_create(
    registry: &mut RoomRegistry,
    room_type: &Option<RoomTypeState>,
    room: MinRoomState,
) -> (accepted: bool)
    requires
        old(registry).wf(),
    ensures
        final(registry).wf(),
        accepted == create_admitted(*room_type),
        accepted ==> final(registry).rooms@ == spec_upsert(old(registry).rooms@, room),
        !accepted ==> *final(registry) == *old(registry),
{
    let admitted = match room_type {
        None => true,
        Some(RoomTypeState::Space) => true,
        Some(RoomTypeState::Other(_)) => false,
    };
    if admitted {
        registry.upsert(room);
    }
    admitted
}

/// A room's name changed: upsert the summary with the freshly computed
/// display name.
pub fn on_room_name(registry: &mut RoomRegistry, room: MinRoomState)
    requires
        old(registry).wf(),
    ensures
        final(registry).wf(),
        final(registry).rooms@ == spec_upsert(old(registry).rooms@, room),
{
    registry.upsert(room);
}

/// A message event for the active room. When its metadata carries a
/// transaction id it is the echo of a local send: the optimistic entry is
/// removed first, then the confirmed entry is appended; otherwise it is a
/// plain live append. Either way an event for another room is discarded.
pub fn on_room_message(
    active: &mut ActiveRoomState,
    room_id: &RoomId,
    sender: &UserId,
    event: EventState,
    txn_id: Option<TransactionId>,
)
    requires
        old(active).wf(),
        event.sender@ == sender@,
        event.id is EventId,
    ensures
        final(active).wf(),
        final(active).id@ == old(active).id@,
        final(active).display_name@ == old(active).display_name@,
        final(active).icon == old(active).icon,
        final(active).kind == old(active).kind,
        final(active).pending_backfill == old(active).pending_backfill,
        room_id@ != old(active).id@ ==> final(active).timeline@ == old(active).timeline@,
        (room_id@ == old(active).id@ && txn_id is None) ==> back_appended(
            final(active).timeline@,
            old(active).timeline@,
            sender@,
            event,
        ),
        room_id@ == old(active).id@ ==> (txn_id matches Some(t) ==> entries_of(
            final(active).timeline@,
        ) == spec_remove_first(entries_of(old(active).timeline@), EventOrTxnId::TxnId(t)).push(
            event,
        )),
{
    match txn_id {
        Some(t) => {
            active.reconcile_echo(room_id, t, sender, event);
        }
        None => {
            active.add_event(room_id, sender, event, Placement::Back);
        }
    }
}

} // verus!
